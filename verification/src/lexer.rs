//! Tokens of the dialect, and the lexer that produces them.
//!
//! A token records its kind and the character span it came from; number
//! and field-reference tokens also carry their parsed value.  Whether `/`
//! begins a regular-expression literal or divides depends on whether the
//! previous token could end an operand.

use vstd::prelude::*;
use crate::num::{
    digits_end, acc_digits, parse_units, is_digit, lemma_digits_end_range, scan_digits,
    parse_fixed_chars,
};
use crate::fields::{is_ws, is_ws_exec};
use crate::strutil::{push_char, to_chars, range_to_vec, eq_chars};
use vstd::string::StrSliceExecFns;

verus! {

/// A syntax fault, at a character offset of the program text.
#[derive(Debug, Clone, Copy, PartialEq, Eq, Structural)]
pub struct SyntaxError {
    pub pos: usize,
}

/// The kind of one token.
#[derive(Debug, Clone, Copy, PartialEq, Eq, Structural)]
pub enum TokKind {
    Ident,
    StrLit,
    RegexLit,
    NumLit { units: i64 },
    ColRef { idx: u32 },
    LBrace,
    RBrace,
    LParen,
    RParen,
    Comma,
    Semicolon,
    Assign,
    PlusAssign,
    Lt,
    Le,
    Ne,
    EqEq,
    Gt,
    Ge,
    Plus,
    Minus,
    Star,
    Slash,
    Percent,
    Match,
    NotMatch,
    KwBegin,
    KwEnd,
    KwPrint,
    KwVar,
    KwIf,
    KwElse,
    KwWhile,
    KwFor,
    KwReturn,
}

/// One token: its kind and the character span it came from.  For text
/// tokens the span excludes the delimiters.
#[derive(Debug, Clone, Copy, PartialEq, Eq, Structural)]
pub struct Token {
    pub kind: TokKind,
    pub lo: usize,
    pub hi: usize,
}

/// True for letters and the underscore.
pub open spec fn is_ident_start(c: char) -> bool {
    ('a' <= c && c <= 'z') || ('A' <= c && c <= 'Z') || c == '_'
}

/// True for letters, digits and the underscore.
pub open spec fn is_ident_char(c: char) -> bool {
    is_ident_start(c) || is_digit(c)
}

/// True for letters and the underscore.
pub fn is_ident_start_exec(c: char) -> (r: bool)
    ensures
        r == is_ident_start(c),
{
    ('a' <= c && c <= 'z') || ('A' <= c && c <= 'Z') || c == '_'
}

/// True for letters, digits and the underscore.
pub fn is_ident_char_exec(c: char) -> (r: bool)
    ensures
        r == is_ident_char(c),
{
    is_ident_start_exec(c) || ('0' <= c && c <= '9')
}

/// First position at or after `i` that does not continue an identifier.
pub open spec fn ident_end(s: Seq<char>, i: int) -> int
    decreases s.len() - i,
{
    if 0 <= i < s.len() && is_ident_char(s[i]) {
        ident_end(s, i + 1)
    } else {
        i
    }
}

/// An identifier runs to its end without leaving the text.
pub proof fn lemma_ident_end_range(s: Seq<char>, i: int)
    requires
        0 <= i <= s.len(),
    ensures
        i <= ident_end(s, i) <= s.len(),
        forall|m: int| i <= m < ident_end(s, i) ==> is_ident_char(s[m]),
    decreases s.len() - i,
{
    if 0 <= i < s.len() && is_ident_char(s[i]) {
        lemma_ident_end_range(s, i + 1);
    }
}

/// First position at or after `i` that holds `c`, or the end of the text.
pub open spec fn close_pos(s: Seq<char>, i: int, c: char) -> int
    decreases s.len() - i,
{
    if 0 <= i < s.len() {
        if s[i] == c {
            i
        } else {
            close_pos(s, i + 1, c)
        }
    } else {
        i
    }
}

/// A closing scan stays inside the text and stops only on its character.
pub proof fn lemma_close_pos_range(s: Seq<char>, i: int, c: char)
    requires
        0 <= i <= s.len(),
    ensures
        i <= close_pos(s, i, c) <= s.len(),
        close_pos(s, i, c) < s.len() ==> s[close_pos(s, i, c)] == c,
        forall|m: int| i <= m < close_pos(s, i, c) ==> s[m] != c,
    decreases s.len() - i,
{
    if 0 <= i < s.len() && s[i] != c {
        lemma_close_pos_range(s, i + 1, c);
    }
}

/// The keyword named by a piece of text, if any.
pub open spec fn kw_of(t: Seq<char>) -> Option<TokKind> {
    if t == "BEGIN"@ {
        Some(TokKind::KwBegin)
    } else if t == "END"@ {
        Some(TokKind::KwEnd)
    } else if t == "print"@ {
        Some(TokKind::KwPrint)
    } else if t == "var"@ {
        Some(TokKind::KwVar)
    } else if t == "if"@ {
        Some(TokKind::KwIf)
    } else if t == "else"@ {
        Some(TokKind::KwElse)
    } else if t == "while"@ {
        Some(TokKind::KwWhile)
    } else if t == "for"@ {
        Some(TokKind::KwFor)
    } else if t == "return"@ {
        Some(TokKind::KwReturn)
    } else {
        None
    }
}

/// Prepends a token to a lexing outcome.
pub open spec fn lex_cons(t: Token, rest: Result<Seq<Token>, int>) -> Result<Seq<Token>, int> {
    match rest {
        Ok(ts) => Ok(seq![t] + ts),
        Err(p) => Err(p),
    }
}

/// Appends an already-lexed prefix to a lexing outcome.
pub open spec fn lex_append(pre: Seq<Token>, rest: Result<Seq<Token>, int>) -> Result<
    Seq<Token>,
    int,
> {
    match rest {
        Ok(ts) => Ok(pre + ts),
        Err(p) => Err(p),
    }
}

proof fn lemma_append_cons(pre: Seq<Token>, t: Token, rest: Result<Seq<Token>, int>)
    ensures
        lex_append(pre.push(t), rest) == lex_append(pre, lex_cons(t, rest)),
{
    match rest {
        Ok(ts) => {
            assert(pre.push(t) + ts =~= pre + (seq![t] + ts));
        },
        Err(_) => {},
    }
}

/// The tokens of the text from position `i` on, or the offset of the
/// first fault.  `prev` tells whether the previous token could end an
/// operand, which decides `/` between division and a regex literal.
pub open spec fn lex_from(s: Seq<char>, i: int, prev: bool) -> Result<Seq<Token>, int>
    decreases s.len() - i
        via lex_from_dec
{
    if i < 0 || i >= s.len() {
        Ok(Seq::empty())
    } else {
        let c = s[i];
        if is_ws(c) {
            lex_from(s, i + 1, prev)
        } else if c == '#' {
            lex_from(s, close_pos(s, i, '\n'), prev)
        } else if c == '{' {
            lex_cons(tok(TokKind::LBrace, i, i + 1), lex_from(s, i + 1, false))
        } else if c == '}' {
            lex_cons(tok(TokKind::RBrace, i, i + 1), lex_from(s, i + 1, false))
        } else if c == '(' {
            lex_cons(tok(TokKind::LParen, i, i + 1), lex_from(s, i + 1, false))
        } else if c == ')' {
            lex_cons(tok(TokKind::RParen, i, i + 1), lex_from(s, i + 1, true))
        } else if c == ',' {
            lex_cons(tok(TokKind::Comma, i, i + 1), lex_from(s, i + 1, false))
        } else if c == ';' {
            lex_cons(tok(TokKind::Semicolon, i, i + 1), lex_from(s, i + 1, false))
        } else if c == '=' {
            if i + 1 < s.len() && s[i + 1] == '=' {
                lex_cons(tok(TokKind::EqEq, i, i + 2), lex_from(s, i + 2, false))
            } else {
                lex_cons(tok(TokKind::Assign, i, i + 1), lex_from(s, i + 1, false))
            }
        } else if c == '+' {
            if i + 1 < s.len() && s[i + 1] == '=' {
                lex_cons(tok(TokKind::PlusAssign, i, i + 2), lex_from(s, i + 2, false))
            } else {
                lex_cons(tok(TokKind::Plus, i, i + 1), lex_from(s, i + 1, false))
            }
        } else if c == '-' {
            lex_cons(tok(TokKind::Minus, i, i + 1), lex_from(s, i + 1, false))
        } else if c == '*' {
            lex_cons(tok(TokKind::Star, i, i + 1), lex_from(s, i + 1, false))
        } else if c == '%' {
            lex_cons(tok(TokKind::Percent, i, i + 1), lex_from(s, i + 1, false))
        } else if c == '<' {
            if i + 1 < s.len() && s[i + 1] == '=' {
                lex_cons(tok(TokKind::Le, i, i + 2), lex_from(s, i + 2, false))
            } else {
                lex_cons(tok(TokKind::Lt, i, i + 1), lex_from(s, i + 1, false))
            }
        } else if c == '>' {
            if i + 1 < s.len() && s[i + 1] == '=' {
                lex_cons(tok(TokKind::Ge, i, i + 2), lex_from(s, i + 2, false))
            } else {
                lex_cons(tok(TokKind::Gt, i, i + 1), lex_from(s, i + 1, false))
            }
        } else if c == '!' {
            if i + 1 < s.len() && s[i + 1] == '=' {
                lex_cons(tok(TokKind::Ne, i, i + 2), lex_from(s, i + 2, false))
            } else if i + 1 < s.len() && s[i + 1] == '~' {
                lex_cons(tok(TokKind::NotMatch, i, i + 2), lex_from(s, i + 2, false))
            } else {
                Err(i)
            }
        } else if c == '~' {
            lex_cons(tok(TokKind::Match, i, i + 1), lex_from(s, i + 1, false))
        } else if c == '"' {
            let j = close_pos(s, i + 1, '"');
            if j >= s.len() {
                Err(i)
            } else {
                lex_cons(tok(TokKind::StrLit, i + 1, j), lex_from(s, j + 1, true))
            }
        } else if c == '/' {
            if prev {
                lex_cons(tok(TokKind::Slash, i, i + 1), lex_from(s, i + 1, false))
            } else {
                let j = close_pos(s, i + 1, '/');
                if j >= s.len() {
                    Err(i)
                } else {
                    lex_cons(tok(TokKind::RegexLit, i + 1, j), lex_from(s, j + 1, true))
                }
            }
        } else if c == '$' {
            let j = digits_end(s, i + 1);
            if j == i + 1 {
                Err(i)
            } else {
                let v = acc_digits(s, i + 1, j, 0);
                if v > u32::MAX {
                    Err(i)
                } else {
                    lex_cons(tok_col(v as u32, i, j), lex_from(s, j, true))
                }
            }
        } else if is_digit(c) {
            let j = digits_end(s, i);
            let j2 = if j < s.len() && s[j] == '.' && digits_end(s, j + 1) > j + 1 {
                digits_end(s, j + 1)
            } else {
                j
            };
            lex_cons(tok_num(parse_units(s.subrange(i, j2)) as i64, i, j2), lex_from(s, j2, true))
        } else if is_ident_start(c) {
            let j = ident_end(s, i);
            match kw_of(s.subrange(i, j)) {
                Some(k) => lex_cons(tok(k, i, j), lex_from(s, j, false)),
                None => lex_cons(tok(TokKind::Ident, i, j), lex_from(s, j, true)),
            }
        } else {
            Err(i)
        }
    }
}

/// A token over a span.
pub open spec fn tok(k: TokKind, lo: int, hi: int) -> Token {
    Token { kind: k, lo: lo as usize, hi: hi as usize }
}

/// A field-reference token.
pub open spec fn tok_col(idx: u32, lo: int, hi: int) -> Token {
    Token { kind: TokKind::ColRef { idx }, lo: lo as usize, hi: hi as usize }
}

/// A number-literal token.
pub open spec fn tok_num(units: i64, lo: int, hi: int) -> Token {
    Token { kind: TokKind::NumLit { units }, lo: lo as usize, hi: hi as usize }
}

#[via_fn]
proof fn lex_from_dec(s: Seq<char>, i: int, prev: bool) {
    if 0 <= i < s.len() {
        lemma_digits_end_range(s, i);
        lemma_ident_end_range(s, i);
        lemma_digits_end_range(s, i + 1);
        lemma_ident_end_range(s, i + 1);
        lemma_close_pos_range(s, i + 1, '"');
        lemma_close_pos_range(s, i + 1, '/');
        lemma_close_pos_range(s, i, '\n');
        let j = digits_end(s, i);
        if 0 <= j + 1 <= s.len() {
            lemma_digits_end_range(s, j + 1);
        }
    }
}

/// The tokens of a whole program text, or the offset of its first fault.
pub open spec fn lex_spec(s: Seq<char>) -> Result<Seq<Token>, int> {
    lex_from(s, 0, false)
}

/// First position at or after `i` that does not continue an identifier.
fn ident_end_exec(src: &Vec<char>, i: usize) -> (j: usize)
    requires
        i <= src@.len(),
    ensures
        j as int == ident_end(src@, i as int),
        i <= j <= src@.len(),
{
    let len = src.len();
    let ghost target = ident_end(src@, i as int);
    proof {
        lemma_ident_end_range(src@, i as int);
    }
    let mut j = i;
    while j < len && is_ident_char_exec(src[j])
        invariant
            len == src@.len(),
            i <= j <= len,
            ident_end(src@, j as int) == target,
        decreases len - j,
    {
        j = j + 1;
    }
    assert(ident_end(src@, j as int) == j as int);
    j
}

/// First position at or after `i` that holds `c`, or the end of the text.
fn close_pos_exec(src: &Vec<char>, i: usize, c: char) -> (j: usize)
    requires
        i <= src@.len(),
    ensures
        j as int == close_pos(src@, i as int, c),
        i <= j <= src@.len(),
{
    let len = src.len();
    let ghost target = close_pos(src@, i as int, c);
    proof {
        lemma_close_pos_range(src@, i as int, c);
    }
    let mut j = i;
    while j < len && src[j] != c
        invariant
            len == src@.len(),
            i <= j <= len,
            close_pos(src@, j as int, c) == target,
        decreases len - j,
    {
        j = j + 1;
    }
    assert(close_pos(src@, j as int, c) == j as int);
    j
}

/// The keyword named by a piece of text, if any.
fn kw_of_exec(t: &Vec<char>) -> (r: Option<TokKind>)
    ensures
        r == kw_of(t@),
{
    let b = to_chars("BEGIN");
    if eq_chars(t, &b) {
        return Some(TokKind::KwBegin);
    }
    let e = to_chars("END");
    if eq_chars(t, &e) {
        return Some(TokKind::KwEnd);
    }
    let p = to_chars("print");
    if eq_chars(t, &p) {
        return Some(TokKind::KwPrint);
    }
    let v = to_chars("var");
    if eq_chars(t, &v) {
        return Some(TokKind::KwVar);
    }
    let f1 = to_chars("if");
    if eq_chars(t, &f1) {
        return Some(TokKind::KwIf);
    }
    let f2 = to_chars("else");
    if eq_chars(t, &f2) {
        return Some(TokKind::KwElse);
    }
    let f3 = to_chars("while");
    if eq_chars(t, &f3) {
        return Some(TokKind::KwWhile);
    }
    let f4 = to_chars("for");
    if eq_chars(t, &f4) {
        return Some(TokKind::KwFor);
    }
    let f5 = to_chars("return");
    if eq_chars(t, &f5) {
        return Some(TokKind::KwReturn);
    }
    None
}

/// Lexes a whole program text into tokens.
pub fn lex(src: &Vec<char>) -> (r: Result<Vec<Token>, SyntaxError>)
    ensures
        match r {
            Ok(ts) => lex_spec(src@) == Ok::<Seq<Token>, int>(ts@),
            Err(e) => lex_spec(src@) == Err::<Seq<Token>, int>(e.pos as int),
        },
{
    let len = src.len();
    let mut out: Vec<Token> = Vec::new();
    let mut i: usize = 0;
    let mut prev = false;
    assert(lex_spec(src@) == lex_append(out@, lex_from(src@, i as int, prev))) by {
        match lex_from(src@, 0, false) {
            Ok(ts) => {
                assert(out@ + ts =~= ts);
            },
            Err(_) => {},
        }
    }
    while i < len
        invariant
            len == src@.len(),
            i <= len,
            lex_spec(src@) == lex_append(out@, lex_from(src@, i as int, prev)),
        decreases len - i,
    {
        let c = src[i];
        let ghost pre = out@;
        let ghost i_in: int = i as int;
        let ghost prev_in = prev;
        if is_ws_exec(c) {
            i = i + 1;
        } else if c == '#' {
            proof {
                lemma_close_pos_range(src@, i as int + 1, '\n');
            }
            let j = close_pos_exec(src, i, '\n');
            assert(j > i);
            i = j;
        } else if c == '{' {
            let t = Token { kind: TokKind::LBrace, lo: i, hi: i + 1 };
            proof {
                lemma_append_cons(pre, t, lex_from(src@, i_in + 1, false));
            }
            out.push(t);
            i = i + 1;
            prev = false;
        } else if c == '}' {
            let t = Token { kind: TokKind::RBrace, lo: i, hi: i + 1 };
            proof {
                lemma_append_cons(pre, t, lex_from(src@, i_in + 1, false));
            }
            out.push(t);
            i = i + 1;
            prev = false;
        } else if c == '(' {
            let t = Token { kind: TokKind::LParen, lo: i, hi: i + 1 };
            proof {
                lemma_append_cons(pre, t, lex_from(src@, i_in + 1, false));
            }
            out.push(t);
            i = i + 1;
            prev = false;
        } else if c == ')' {
            let t = Token { kind: TokKind::RParen, lo: i, hi: i + 1 };
            proof {
                lemma_append_cons(pre, t, lex_from(src@, i_in + 1, true));
            }
            out.push(t);
            i = i + 1;
            prev = true;
        } else if c == ',' {
            let t = Token { kind: TokKind::Comma, lo: i, hi: i + 1 };
            proof {
                lemma_append_cons(pre, t, lex_from(src@, i_in + 1, false));
            }
            out.push(t);
            i = i + 1;
            prev = false;
        } else if c == ';' {
            let t = Token { kind: TokKind::Semicolon, lo: i, hi: i + 1 };
            proof {
                lemma_append_cons(pre, t, lex_from(src@, i_in + 1, false));
            }
            out.push(t);
            i = i + 1;
            prev = false;
        } else if c == '=' {
            if i + 1 < len && src[i + 1] == '=' {
                let t = Token { kind: TokKind::EqEq, lo: i, hi: i + 2 };
                proof {
                    lemma_append_cons(pre, t, lex_from(src@, i_in + 2, false));
                }
                out.push(t);
                i = i + 2;
            } else {
                let t = Token { kind: TokKind::Assign, lo: i, hi: i + 1 };
                proof {
                    lemma_append_cons(pre, t, lex_from(src@, i_in + 1, false));
                }
                out.push(t);
                i = i + 1;
            }
            prev = false;
        } else if c == '+' {
            if i + 1 < len && src[i + 1] == '=' {
                let t = Token { kind: TokKind::PlusAssign, lo: i, hi: i + 2 };
                proof {
                    lemma_append_cons(pre, t, lex_from(src@, i_in + 2, false));
                }
                out.push(t);
                i = i + 2;
            } else {
                let t = Token { kind: TokKind::Plus, lo: i, hi: i + 1 };
                proof {
                    lemma_append_cons(pre, t, lex_from(src@, i_in + 1, false));
                }
                out.push(t);
                i = i + 1;
            }
            prev = false;
        } else if c == '-' {
            let t = Token { kind: TokKind::Minus, lo: i, hi: i + 1 };
            proof {
                lemma_append_cons(pre, t, lex_from(src@, i_in + 1, false));
            }
            out.push(t);
            i = i + 1;
            prev = false;
        } else if c == '*' {
            let t = Token { kind: TokKind::Star, lo: i, hi: i + 1 };
            proof {
                lemma_append_cons(pre, t, lex_from(src@, i_in + 1, false));
            }
            out.push(t);
            i = i + 1;
            prev = false;
        } else if c == '%' {
            let t = Token { kind: TokKind::Percent, lo: i, hi: i + 1 };
            proof {
                lemma_append_cons(pre, t, lex_from(src@, i_in + 1, false));
            }
            out.push(t);
            i = i + 1;
            prev = false;
        } else if c == '<' {
            if i + 1 < len && src[i + 1] == '=' {
                let t = Token { kind: TokKind::Le, lo: i, hi: i + 2 };
                proof {
                    lemma_append_cons(pre, t, lex_from(src@, i_in + 2, false));
                }
                out.push(t);
                i = i + 2;
            } else {
                let t = Token { kind: TokKind::Lt, lo: i, hi: i + 1 };
                proof {
                    lemma_append_cons(pre, t, lex_from(src@, i_in + 1, false));
                }
                out.push(t);
                i = i + 1;
            }
            prev = false;
        } else if c == '>' {
            if i + 1 < len && src[i + 1] == '=' {
                let t = Token { kind: TokKind::Ge, lo: i, hi: i + 2 };
                proof {
                    lemma_append_cons(pre, t, lex_from(src@, i_in + 2, false));
                }
                out.push(t);
                i = i + 2;
            } else {
                let t = Token { kind: TokKind::Gt, lo: i, hi: i + 1 };
                proof {
                    lemma_append_cons(pre, t, lex_from(src@, i_in + 1, false));
                }
                out.push(t);
                i = i + 1;
            }
            prev = false;
        } else if c == '!' {
            if i + 1 < len && src[i + 1] == '=' {
                let t = Token { kind: TokKind::Ne, lo: i, hi: i + 2 };
                proof {
                    lemma_append_cons(pre, t, lex_from(src@, i_in + 2, false));
                }
                out.push(t);
                i = i + 2;
                prev = false;
            } else if i + 1 < len && src[i + 1] == '~' {
                let t = Token { kind: TokKind::NotMatch, lo: i, hi: i + 2 };
                proof {
                    lemma_append_cons(pre, t, lex_from(src@, i_in + 2, false));
                }
                out.push(t);
                i = i + 2;
                prev = false;
            } else {
                return Err(SyntaxError { pos: i });
            }
        } else if c == '~' {
            let t = Token { kind: TokKind::Match, lo: i, hi: i + 1 };
            proof {
                lemma_append_cons(pre, t, lex_from(src@, i_in + 1, false));
            }
            out.push(t);
            i = i + 1;
            prev = false;
        } else if c == '"' {
            let j = close_pos_exec(src, i + 1, '"');
            if j >= len {
                return Err(SyntaxError { pos: i });
            }
            let t = Token { kind: TokKind::StrLit, lo: i + 1, hi: j };
            proof {
                lemma_append_cons(pre, t, lex_from(src@, j as int + 1, true));
            }
            out.push(t);
            i = j + 1;
            prev = true;
        } else if c == '/' {
            if prev {
                let t = Token { kind: TokKind::Slash, lo: i, hi: i + 1 };
                proof {
                    lemma_append_cons(pre, t, lex_from(src@, i_in + 1, false));
                }
                out.push(t);
                i = i + 1;
                prev = false;
            } else {
                let j = close_pos_exec(src, i + 1, '/');
                if j >= len {
                    return Err(SyntaxError { pos: i });
                }
                let t = Token { kind: TokKind::RegexLit, lo: i + 1, hi: j };
                proof {
                    lemma_append_cons(pre, t, lex_from(src@, j as int + 1, true));
                }
                out.push(t);
                i = j + 1;
                prev = true;
            }
        } else if c == '$' {
            let (j, v) = scan_digits(src, i + 1);
            if j == i + 1 {
                return Err(SyntaxError { pos: i });
            }
            if v > 4294967295u64 {
                return Err(SyntaxError { pos: i });
            }
            let t = Token { kind: TokKind::ColRef { idx: v as u32 }, lo: i, hi: j };
            proof {
                lemma_append_cons(pre, t, lex_from(src@, j as int, true));
            }
            out.push(t);
            i = j;
            prev = true;
        } else if is_digit_char(c) {
            proof {
                lemma_digits_end_range(src@, i as int + 1);
                assert(digits_end(src@, i as int) == digits_end(src@, i as int + 1));
            }
            let (j, _v) = scan_digits(src, i);
            assert(j > i);
            let j2 = if j < len && src[j] == '.' {
                let (j3, _v2) = scan_digits(src, j + 1);
                if j3 > j + 1 {
                    j3
                } else {
                    j
                }
            } else {
                j
            };
            let sub = range_to_vec(src, i, j2);
            let f = parse_fixed_chars(&sub);
            let t = Token { kind: TokKind::NumLit { units: f.units }, lo: i, hi: j2 };
            proof {
                lemma_append_cons(pre, t, lex_from(src@, j2 as int, true));
            }
            out.push(t);
            i = j2;
            prev = true;
        } else if is_ident_start_exec(c) {
            proof {
                lemma_ident_end_range(src@, i as int + 1);
                assert(ident_end(src@, i as int) == ident_end(src@, i as int + 1));
            }
            let j = ident_end_exec(src, i);
            assert(j > i);
            let sub = range_to_vec(src, i, j);
            let t = match kw_of_exec(&sub) {
                Some(k) => Token { kind: k, lo: i, hi: j },
                None => Token { kind: TokKind::Ident, lo: i, hi: j },
            };
            let is_kw = match t.kind {
                TokKind::Ident => false,
                _ => true,
            };
            proof {
                lemma_append_cons(pre, t, lex_from(src@, j as int, !is_kw));
            }
            out.push(t);
            i = j;
            prev = !is_kw;
        } else {
            return Err(SyntaxError { pos: i });
        }
    }
    assert(lex_from(src@, i as int, prev) == Ok::<Seq<Token>, int>(Seq::empty()));
    assert(out@ + Seq::<Token>::empty() =~= out@);
    Ok(out)
}

/// True for the ten decimal digit characters.
fn is_digit_char(c: char) -> (r: bool)
    ensures
        r == is_digit(c),
{
    '0' <= c && c <= '9'
}

/// Replaces each comment (a `#` to its line's end) with spaces, so that
/// positions in the result line up with positions in the input.
pub open spec fn uncomment_from(s: Seq<char>, i: int, in_comment: bool) -> Seq<char>
    decreases s.len() - i,
{
    if i < 0 || i >= s.len() {
        Seq::empty()
    } else {
        let c = s[i];
        if in_comment {
            if c == '\n' {
                seq!['\n'] + uncomment_from(s, i + 1, false)
            } else {
                seq![' '] + uncomment_from(s, i + 1, true)
            }
        } else if c == '#' {
            seq![' '] + uncomment_from(s, i + 1, true)
        } else {
            seq![c] + uncomment_from(s, i + 1, false)
        }
    }
}

/// Replaces comments with whitespace, keeping every other character where
/// it stands, so that positions still point into the original text.
pub fn uncomment(string: &str) -> (r: String)
    ensures
        r@ == uncomment_from(string@, 0, false),
{
    let chars = to_chars(string);
    let len = chars.len();
    let mut out = String::new();
    let mut i: usize = 0;
    let mut in_comment = false;
    assert(out@ + uncomment_from(chars@, 0, false) =~= uncomment_from(chars@, 0, false));
    while i < len
        invariant
            len == chars@.len(),
            chars@ == string@,
            i <= len,
            uncomment_from(string@, 0, false) == out@ + uncomment_from(
                chars@,
                i as int,
                in_comment,
            ),
        decreases len - i,
    {
        let c = chars[i];
        let ghost pre = out@;
        let ghost in_old = in_comment;
        if in_comment {
            if c == '\n' {
                push_char(&mut out, '\n');
                in_comment = false;
            } else {
                push_char(&mut out, ' ');
            }
        } else if c == '#' {
            push_char(&mut out, ' ');
            in_comment = true;
        } else {
            push_char(&mut out, c);
        }
        proof {
            assert(pre + uncomment_from(chars@, i as int, in_old) =~= out@ + uncomment_from(
                chars@,
                i as int + 1,
                in_comment,
            ));
        }
        i = i + 1;
    }
    assert(uncomment_from(chars@, i as int, in_comment) =~= Seq::<char>::empty());
    assert(out@ + Seq::<char>::empty() =~= out@);
    out
}

} // verus!
