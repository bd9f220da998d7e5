//! The grammar-driven parser: program text to abstract syntax tree.
//!
//! The grammar is a descending chain of expression tiers — assignment,
//! regex match, comparison, concatenation by juxtaposition, function
//! calls, additive, multiplicative, atoms — each tier either delegating
//! to the next-tighter tier or folding repeated operators of its own tier
//! left-associatively.  `parse_spec` is the grammar's meaning; `parse`
//! is proved to return exactly what it says.

use vstd::prelude::*;
use crate::ast::{
    Expression, Statement, InitClause, PrintStatement, Block, Pattern, PatternBlock, FunctionDef,
    Program, Id, ExprV, StmtV, InitV, PatternV, PatternBlockV, FunctionDefV, ProgramV, ArithOp,
    args_view, stmts_view, ids_view, pbs_view, fds_view, lemma_args_view_index,
    lemma_stmts_view_index,
};
use crate::lexer::{Token, TokKind, SyntaxError, lex_spec, lex};
use crate::value::CmpOp;
use crate::ere::{ere_valid, compile_ere};
use crate::strutil::{to_chars, range_to_string};

verus! {

/// What is left of the token stream at position `p`, never negative.
pub open spec fn rem_toks(toks: Seq<Token>, p: int) -> int {
    if toks.len() - p >= 0 {
        toks.len() - p
    } else {
        0
    }
}

/// Outcome of one parsing step: a parsed value and the position after
/// it, or the character offset of a fault.
pub enum POut<T> {
    POk(T, int),
    PErr(int),
}

/// The character offset of the token at `p`, or the text's end.
pub open spec fn tok_pos(s: Seq<char>, toks: Seq<Token>, p: int) -> int {
    if 0 <= p < toks.len() {
        toks[p].lo as int
    } else {
        s.len() as int
    }
}

/// The text a token covers, when its span lies inside the text.
pub open spec fn tok_text(s: Seq<char>, t: Token) -> Option<Seq<char>> {
    if t.lo <= t.hi <= s.len() {
        Some(s.subrange(t.lo as int, t.hi as int))
    } else {
        None
    }
}

/// The kind of the token at `p`, if any.
pub open spec fn kind_at(toks: Seq<Token>, p: int) -> Option<TokKind> {
    if 0 <= p < toks.len() {
        Some(toks[p].kind)
    } else {
        None
    }
}

/// True for the token kinds that can begin an operand, which is what
/// concatenation by juxtaposition looks for.
pub open spec fn starts_operand(k: TokKind) -> bool {
    match k {
        TokKind::Ident => true,
        TokKind::StrLit => true,
        TokKind::RegexLit => true,
        TokKind::NumLit { .. } => true,
        TokKind::ColRef { .. } => true,
        TokKind::LParen => true,
        _ => false,
    }
}

/// An atom: a literal, a field reference, a variable, a regex literal
/// (whose pattern must compile), or a parenthesized expression.
pub open spec fn p_atom(s: Seq<char>, toks: Seq<Token>, p: int) -> POut<ExprV>
    decreases rem_toks(toks, p), 0int,
{
    if p < 0 || p >= toks.len() {
        POut::PErr(tok_pos(s, toks, p))
    } else {
        let t = toks[p];
        match t.kind {
            TokKind::StrLit => match tok_text(s, t) {
                Some(txt) => POut::POk(ExprV::StrE(txt), p + 1),
                None => POut::PErr(t.lo as int),
            },
            TokKind::RegexLit => match tok_text(s, t) {
                Some(txt) => if ere_valid(txt) {
                    POut::POk(ExprV::RegexE(txt), p + 1)
                } else {
                    POut::PErr(t.lo as int)
                },
                None => POut::PErr(t.lo as int),
            },
            TokKind::NumLit { units } => POut::POk(ExprV::NumE(units as int), p + 1),
            TokKind::ColRef { idx } => POut::POk(ExprV::ColE(idx), p + 1),
            TokKind::Ident => match tok_text(s, t) {
                Some(txt) => POut::POk(ExprV::VarE(txt), p + 1),
                None => POut::PErr(t.lo as int),
            },
            TokKind::LParen => match p_expr(s, toks, p + 1) {
                POut::POk(e, q) => if kind_at(toks, q) == Some(TokKind::RParen) {
                    POut::POk(e, q + 1)
                } else {
                    POut::PErr(tok_pos(s, toks, q))
                },
                POut::PErr(x) => POut::PErr(x),
            },
            _ => POut::PErr(t.lo as int),
        }
    }
}

/// A multiplicative chain: atoms folded left over `*`, `/`, `%`.
pub open spec fn p_mul(s: Seq<char>, toks: Seq<Token>, p: int) -> POut<ExprV>
    decreases rem_toks(toks, p), 1int,
{
    match p_atom(s, toks, p) {
        POut::POk(e, q) => if q > p {
            p_mul_rest(s, toks, q, e)
        } else {
            POut::PErr(tok_pos(s, toks, p))
        },
        POut::PErr(x) => POut::PErr(x),
    }
}

/// The remaining `*`, `/`, `%` steps of a multiplicative chain.
pub open spec fn p_mul_rest(s: Seq<char>, toks: Seq<Token>, p: int, acc: ExprV) -> POut<ExprV>
    decreases rem_toks(toks, p), 0int,
{
    let op = match kind_at(toks, p) {
        Some(TokKind::Star) => Some(ArithOp::Times),
        Some(TokKind::Slash) => Some(ArithOp::Div),
        Some(TokKind::Percent) => Some(ArithOp::Modulo),
        _ => None,
    };
    match op {
        Some(o) => match p_atom(s, toks, p + 1) {
            POut::POk(e, q) => if q > p + 1 {
                p_mul_rest(s, toks, q, ExprV::ArithE(o, Box::new(acc), Box::new(e)))
            } else {
                POut::PErr(tok_pos(s, toks, p + 1))
            },
            POut::PErr(x) => POut::PErr(x),
        },
        None => POut::POk(acc, p),
    }
}

/// An additive chain: multiplicative chains folded left over `+`, `-`.
pub open spec fn p_add(s: Seq<char>, toks: Seq<Token>, p: int) -> POut<ExprV>
    decreases rem_toks(toks, p), 2int,
{
    match p_mul(s, toks, p) {
        POut::POk(e, q) => if q > p {
            p_add_rest(s, toks, q, e)
        } else {
            POut::PErr(tok_pos(s, toks, p))
        },
        POut::PErr(x) => POut::PErr(x),
    }
}

/// The remaining `+`, `-` steps of an additive chain.
pub open spec fn p_add_rest(s: Seq<char>, toks: Seq<Token>, p: int, acc: ExprV) -> POut<ExprV>
    decreases rem_toks(toks, p), 0int,
{
    let op = match kind_at(toks, p) {
        Some(TokKind::Plus) => Some(ArithOp::Plus),
        Some(TokKind::Minus) => Some(ArithOp::Minus),
        _ => None,
    };
    match op {
        Some(o) => match p_mul(s, toks, p + 1) {
            POut::POk(e, q) => if q > p + 1 {
                p_add_rest(s, toks, q, ExprV::ArithE(o, Box::new(acc), Box::new(e)))
            } else {
                POut::PErr(tok_pos(s, toks, p + 1))
            },
            POut::PErr(x) => POut::PErr(x),
        },
        None => POut::POk(acc, p),
    }
}

/// A function call — a name directly followed by an argument list — or
/// an additive chain.
pub open spec fn p_call(s: Seq<char>, toks: Seq<Token>, p: int) -> POut<ExprV>
    decreases rem_toks(toks, p), 3int,
{
    if 0 <= p < toks.len() && toks[p].kind == TokKind::Ident && kind_at(toks, p + 1) == Some(
        TokKind::LParen,
    ) {
        match tok_text(s, toks[p]) {
            Some(name) => match p_args(s, toks, p + 2) {
                POut::POk(args, q) => POut::POk(ExprV::CallE(name, args), q),
                POut::PErr(x) => POut::PErr(x),
            },
            None => POut::PErr(toks[p].lo as int),
        }
    } else {
        p_add(s, toks, p)
    }
}

/// A call's argument list after its opening parenthesis: empty, or
/// comma-separated additive chains, closed by a parenthesis.
pub open spec fn p_args(s: Seq<char>, toks: Seq<Token>, p: int) -> POut<Seq<ExprV>>
    decreases rem_toks(toks, p), 5int,
{
    if kind_at(toks, p) == Some(TokKind::RParen) {
        POut::POk(Seq::empty(), p + 1)
    } else {
        p_args_more(s, toks, p)
    }
}

/// One or more comma-separated arguments, closed by a parenthesis.
pub open spec fn p_args_more(s: Seq<char>, toks: Seq<Token>, p: int) -> POut<Seq<ExprV>>
    decreases rem_toks(toks, p), 4int,
{
    match p_add(s, toks, p) {
        POut::POk(e, q) => if q > p {
            if kind_at(toks, q) == Some(TokKind::Comma) {
                match p_args_more(s, toks, q + 1) {
                    POut::POk(rest, q2) => POut::POk(seq![e] + rest, q2),
                    POut::PErr(x) => POut::PErr(x),
                }
            } else if kind_at(toks, q) == Some(TokKind::RParen) {
                POut::POk(seq![e], q + 1)
            } else {
                POut::PErr(tok_pos(s, toks, q))
            }
        } else {
            POut::PErr(tok_pos(s, toks, p))
        },
        POut::PErr(x) => POut::PErr(x),
    }
}

/// A concatenation: operands folded left while the next token can begin
/// an operand.
pub open spec fn p_concat(s: Seq<char>, toks: Seq<Token>, p: int) -> POut<ExprV>
    decreases rem_toks(toks, p), 6int,
{
    match p_call(s, toks, p) {
        POut::POk(e, q) => if q > p {
            p_concat_rest(s, toks, q, e)
        } else {
            POut::PErr(tok_pos(s, toks, p))
        },
        POut::PErr(x) => POut::PErr(x),
    }
}

/// The remaining juxtaposed operands of a concatenation.
pub open spec fn p_concat_rest(s: Seq<char>, toks: Seq<Token>, p: int, acc: ExprV) -> POut<ExprV>
    decreases rem_toks(toks, p), 5int,
{
    if 0 <= p < toks.len() && starts_operand(toks[p].kind) {
        match p_call(s, toks, p) {
            POut::POk(e, q) => if q > p {
                p_concat_rest(s, toks, q, ExprV::ConcatE(Box::new(acc), Box::new(e)))
            } else {
                POut::PErr(tok_pos(s, toks, p))
            },
            POut::PErr(x) => POut::PErr(x),
        }
    } else {
        POut::POk(acc, p)
    }
}

/// A single optional comparison between two concatenations.
pub open spec fn p_rel(s: Seq<char>, toks: Seq<Token>, p: int) -> POut<ExprV>
    decreases rem_toks(toks, p), 7int,
{
    match p_concat(s, toks, p) {
        POut::POk(l, q) => if q > p {
            let op = match kind_at(toks, q) {
                Some(TokKind::Lt) => Some(CmpOp::Lt),
                Some(TokKind::Le) => Some(CmpOp::Le),
                Some(TokKind::Ne) => Some(CmpOp::Ne),
                Some(TokKind::EqEq) => Some(CmpOp::EqEq),
                Some(TokKind::Gt) => Some(CmpOp::Gt),
                Some(TokKind::Ge) => Some(CmpOp::Ge),
                _ => None,
            };
            match op {
                Some(o) => match p_concat(s, toks, q + 1) {
                    POut::POk(r, q2) => POut::POk(
                        ExprV::CmpE(o, Box::new(l), Box::new(r)),
                        q2,
                    ),
                    POut::PErr(x) => POut::PErr(x),
                },
                None => POut::POk(l, q),
            }
        } else {
            POut::PErr(tok_pos(s, toks, p))
        },
        POut::PErr(x) => POut::PErr(x),
    }
}

/// A single optional `~` or `!~` between two comparison tiers.
pub open spec fn p_match(s: Seq<char>, toks: Seq<Token>, p: int) -> POut<ExprV>
    decreases rem_toks(toks, p), 8int,
{
    match p_rel(s, toks, p) {
        POut::POk(l, q) => if q > p {
            let neg = match kind_at(toks, q) {
                Some(TokKind::Match) => Some(false),
                Some(TokKind::NotMatch) => Some(true),
                _ => None,
            };
            match neg {
                Some(n) => match p_rel(s, toks, q + 1) {
                    POut::POk(r, q2) => POut::POk(
                        ExprV::MatchE(n, Box::new(l), Box::new(r)),
                        q2,
                    ),
                    POut::PErr(x) => POut::PErr(x),
                },
                None => POut::POk(l, q),
            }
        } else {
            POut::PErr(tok_pos(s, toks, p))
        },
        POut::PErr(x) => POut::PErr(x),
    }
}

/// A full expression: at most one assignment, whose target is a name and
/// whose right-hand side is parsed at the next tier down.
pub open spec fn p_expr(s: Seq<char>, toks: Seq<Token>, p: int) -> POut<ExprV>
    decreases rem_toks(toks, p), 9int,
{
    if 0 <= p < toks.len() && toks[p].kind == TokKind::Ident && (kind_at(toks, p + 1) == Some(
        TokKind::Assign,
    ) || kind_at(toks, p + 1) == Some(TokKind::PlusAssign)) {
        match tok_text(s, toks[p]) {
            Some(name) => match p_match(s, toks, p + 2) {
                POut::POk(e, q) => if kind_at(toks, p + 1) == Some(TokKind::Assign) {
                    POut::POk(ExprV::AssignE(name, Box::new(e)), q)
                } else {
                    POut::POk(ExprV::PlusAssignE(name, Box::new(e)), q)
                },
                POut::PErr(x) => POut::PErr(x),
            },
            None => POut::PErr(toks[p].lo as int),
        }
    } else {
        p_match(s, toks, p)
    }
}

/// A statement: print, local declaration, if, while, for, return, a
/// nested block, or a bare expression.
pub open spec fn p_stmt(s: Seq<char>, toks: Seq<Token>, p: int) -> POut<StmtV>
    decreases rem_toks(toks, p), 10int,
{
    if p < 0 || p >= toks.len() {
        POut::PErr(tok_pos(s, toks, p))
    } else {
        match toks[p].kind {
            TokKind::KwPrint => match p_expr(s, toks, p + 1) {
                POut::POk(e, q) => POut::POk(StmtV::PrintS(Box::new(e)), q),
                POut::PErr(x) => POut::PErr(x),
            },
            TokKind::KwVar => match p_local(s, toks, p) {
                POut::POk(st, q) => POut::POk(st, q),
                POut::PErr(x) => POut::PErr(x),
            },
            TokKind::KwIf => if kind_at(toks, p + 1) == Some(TokKind::LParen) {
                match p_expr(s, toks, p + 2) {
                    POut::POk(c, q) => if q > p + 2 && kind_at(toks, q) == Some(TokKind::RParen) {
                        match p_stmt(s, toks, q + 1) {
                            POut::POk(t, q2) => if q2 > q + 1 && kind_at(toks, q2) == Some(
                                TokKind::KwElse,
                            ) {
                                match p_stmt(s, toks, q2 + 1) {
                                    POut::POk(f, q3) => POut::POk(
                                        StmtV::IfS(
                                            Box::new(c),
                                            Box::new(t),
                                            Some(Box::new(f)),
                                        ),
                                        q3,
                                    ),
                                    POut::PErr(x) => POut::PErr(x),
                                }
                            } else {
                                POut::POk(StmtV::IfS(Box::new(c), Box::new(t), None), q2)
                            },
                            POut::PErr(x) => POut::PErr(x),
                        }
                    } else {
                        POut::PErr(tok_pos(s, toks, q))
                    },
                    POut::PErr(x) => POut::PErr(x),
                }
            } else {
                POut::PErr(tok_pos(s, toks, p + 1))
            },
            TokKind::KwWhile => if kind_at(toks, p + 1) == Some(TokKind::LParen) {
                match p_expr(s, toks, p + 2) {
                    POut::POk(c, q) => if q > p + 2 && kind_at(toks, q) == Some(TokKind::RParen) {
                        match p_stmt(s, toks, q + 1) {
                            POut::POk(b, q2) => POut::POk(
                                StmtV::WhileS(Box::new(c), Box::new(b)),
                                q2,
                            ),
                            POut::PErr(x) => POut::PErr(x),
                        }
                    } else {
                        POut::PErr(tok_pos(s, toks, q))
                    },
                    POut::PErr(x) => POut::PErr(x),
                }
            } else {
                POut::PErr(tok_pos(s, toks, p + 1))
            },
            TokKind::KwFor => p_for(s, toks, p),
            TokKind::KwReturn => match p_expr(s, toks, p + 1) {
                POut::POk(e, q) => POut::POk(StmtV::ReturnS(Box::new(e)), q),
                POut::PErr(x) => POut::PErr(x),
            },
            TokKind::LBrace => match p_stmts(s, toks, p + 1) {
                POut::POk(sts, q) => POut::POk(StmtV::BlockS(sts), q),
                POut::PErr(x) => POut::PErr(x),
            },
            _ => match p_expr(s, toks, p) {
                POut::POk(e, q) => POut::POk(StmtV::ExprS(Box::new(e)), q),
                POut::PErr(x) => POut::PErr(x),
            },
        }
    }
}

/// A local declaration: `var`, a name, and an optional initializer.
pub open spec fn p_local(s: Seq<char>, toks: Seq<Token>, p: int) -> POut<StmtV>
    decreases rem_toks(toks, p), 1int,
{
    if kind_at(toks, p) == Some(TokKind::KwVar) && 0 <= p + 1 < toks.len() && toks[p + 1].kind
        == TokKind::Ident {
        match tok_text(s, toks[p + 1]) {
            Some(name) => if kind_at(toks, p + 2) == Some(TokKind::Assign) {
                match p_expr(s, toks, p + 3) {
                    POut::POk(e, q) => POut::POk(StmtV::LocalS(name, Some(Box::new(e))), q),
                    POut::PErr(x) => POut::PErr(x),
                }
            } else {
                POut::POk(StmtV::LocalS(name, None), p + 2)
            },
            None => POut::PErr(toks[p + 1].lo as int),
        }
    } else {
        POut::PErr(tok_pos(s, toks, p + 1))
    }
}

/// A `for` statement: parenthesized init, condition and iteration
/// clauses separated by semicolons, each optional, then a body.
pub open spec fn p_for(s: Seq<char>, toks: Seq<Token>, p: int) -> POut<StmtV>
    decreases rem_toks(toks, p), 2int,
{
    if kind_at(toks, p + 1) != Some(TokKind::LParen) {
        POut::PErr(tok_pos(s, toks, p + 1))
    } else {
        let init_out: POut<Option<InitV>> = if kind_at(toks, p + 2) == Some(TokKind::Semicolon) {
            POut::POk(None, p + 3)
        } else if kind_at(toks, p + 2) == Some(TokKind::KwVar) {
            match p_local(s, toks, p + 2) {
                POut::POk(st, q) => if kind_at(toks, q) == Some(TokKind::Semicolon) {
                    POut::POk(Some(InitV::InitDeclV(Box::new(st))), q + 1)
                } else {
                    POut::PErr(tok_pos(s, toks, q))
                },
                POut::PErr(x) => POut::PErr(x),
            }
        } else {
            match p_expr(s, toks, p + 2) {
                POut::POk(e, q) => if q > p + 2 && kind_at(toks, q) == Some(TokKind::Semicolon) {
                    POut::POk(Some(InitV::InitExprV(Box::new(e))), q + 1)
                } else {
                    POut::PErr(tok_pos(s, toks, q))
                },
                POut::PErr(x) => POut::PErr(x),
            }
        };
        match init_out {
            POut::POk(init, p2) => if p2 <= p + 2 {
                POut::PErr(tok_pos(s, toks, p2))
            } else {
                let cond_out: POut<Option<ExprV>> = if kind_at(toks, p2) == Some(
                    TokKind::Semicolon,
                ) {
                    POut::POk(None, p2 + 1)
                } else {
                    match p_expr(s, toks, p2) {
                        POut::POk(e, q) => if q > p2 && kind_at(toks, q) == Some(
                            TokKind::Semicolon,
                        ) {
                            POut::POk(Some(e), q + 1)
                        } else {
                            POut::PErr(tok_pos(s, toks, q))
                        },
                        POut::PErr(x) => POut::PErr(x),
                    }
                };
                match cond_out {
                    POut::POk(cond, p3) => if p3 <= p2 {
                        POut::PErr(tok_pos(s, toks, p3))
                    } else {
                        let iter_out: POut<Option<ExprV>> = if kind_at(toks, p3) == Some(
                            TokKind::RParen,
                        ) {
                            POut::POk(None, p3 + 1)
                        } else {
                            match p_expr(s, toks, p3) {
                                POut::POk(e, q) => if q > p3 && kind_at(toks, q) == Some(
                                    TokKind::RParen,
                                ) {
                                    POut::POk(Some(e), q + 1)
                                } else {
                                    POut::PErr(tok_pos(s, toks, q))
                                },
                                POut::PErr(x) => POut::PErr(x),
                            }
                        };
                        match iter_out {
                            POut::POk(iter, p4) => if p4 <= p3 {
                                POut::PErr(tok_pos(s, toks, p4))
                            } else {
                                match p_stmt(s, toks, p4) {
                                    POut::POk(b, q) => POut::POk(
                                        StmtV::ForS(
                                            init,
                                            match cond {
                                                Some(c) => Some(Box::new(c)),
                                                None => None,
                                            },
                                            match iter {
                                                Some(c) => Some(Box::new(c)),
                                                None => None,
                                            },
                                            Box::new(b),
                                        ),
                                        q,
                                    ),
                                    POut::PErr(x) => POut::PErr(x),
                                }
                            },
                            POut::PErr(x) => POut::PErr(x),
                        }
                    },
                    POut::PErr(x) => POut::PErr(x),
                }
            },
            POut::PErr(x) => POut::PErr(x),
        }
    }
}

/// The statements of a block, up to and including its closing brace.
pub open spec fn p_stmts(s: Seq<char>, toks: Seq<Token>, p: int) -> POut<Seq<StmtV>>
    decreases rem_toks(toks, p), 11int,
{
    if p < 0 || p >= toks.len() {
        POut::PErr(tok_pos(s, toks, p))
    } else if toks[p].kind == TokKind::RBrace {
        POut::POk(Seq::empty(), p + 1)
    } else {
        match p_stmt(s, toks, p) {
            POut::POk(st, q) => if q > p {
                match p_stmts(s, toks, q) {
                    POut::POk(rest, q2) => POut::POk(seq![st] + rest, q2),
                    POut::PErr(x) => POut::PErr(x),
                }
            } else {
                POut::PErr(tok_pos(s, toks, p))
            },
            POut::PErr(x) => POut::PErr(x),
        }
    }
}

/// A parameter list after its opening parenthesis: names separated by
/// commas, closed by a parenthesis.
pub open spec fn p_params(s: Seq<char>, toks: Seq<Token>, p: int) -> POut<Seq<Seq<char>>>
    decreases rem_toks(toks, p), 0int,
{
    if kind_at(toks, p) == Some(TokKind::RParen) {
        POut::POk(Seq::empty(), p + 1)
    } else if 0 <= p < toks.len() && toks[p].kind == TokKind::Ident {
        match tok_text(s, toks[p]) {
            Some(name) => if kind_at(toks, p + 1) == Some(TokKind::Comma) {
                match p_params(s, toks, p + 2) {
                    POut::POk(rest, q) => if rest.len() > 0 {
                        POut::POk(seq![name] + rest, q)
                    } else {
                        POut::PErr(tok_pos(s, toks, p + 2))
                    },
                    POut::PErr(x) => POut::PErr(x),
                }
            } else if kind_at(toks, p + 1) == Some(TokKind::RParen) {
                POut::POk(seq![name], p + 2)
            } else {
                POut::PErr(tok_pos(s, toks, p + 1))
            },
            None => POut::PErr(toks[p].lo as int),
        }
    } else {
        POut::PErr(tok_pos(s, toks, p))
    }
}

/// An action block as parsed: an empty block counts as no action, so a
/// rule written with empty braces keeps the default print action.
pub open spec fn some_action(sts: Seq<StmtV>) -> Option<Seq<StmtV>> {
    if sts.len() == 0 {
        None
    } else {
        Some(sts)
    }
}

/// One rule: a `BEGIN`/`END`/expression pattern, an action block, or a
/// pattern followed by an action block.
pub open spec fn p_pattern_block(s: Seq<char>, toks: Seq<Token>, p: int) -> POut<PatternBlockV>
    decreases rem_toks(toks, p), 11int,
{
    if p < 0 || p >= toks.len() {
        POut::PErr(tok_pos(s, toks, p))
    } else {
        match toks[p].kind {
            TokKind::KwBegin => if kind_at(toks, p + 1) == Some(TokKind::LBrace) {
                match p_stmts(s, toks, p + 2) {
                    POut::POk(sts, q) => POut::POk(
                        PatternBlockV { pattern: Some(PatternV::BeginP), block: some_action(sts) },
                        q,
                    ),
                    POut::PErr(x) => POut::PErr(x),
                }
            } else {
                POut::POk(PatternBlockV { pattern: Some(PatternV::BeginP), block: None }, p + 1)
            },
            TokKind::KwEnd => if kind_at(toks, p + 1) == Some(TokKind::LBrace) {
                match p_stmts(s, toks, p + 2) {
                    POut::POk(sts, q) => POut::POk(
                        PatternBlockV { pattern: Some(PatternV::EndP), block: some_action(sts) },
                        q,
                    ),
                    POut::PErr(x) => POut::PErr(x),
                }
            } else {
                POut::POk(PatternBlockV { pattern: Some(PatternV::EndP), block: None }, p + 1)
            },
            TokKind::LBrace => match p_stmts(s, toks, p + 1) {
                POut::POk(sts, q) => POut::POk(
                    PatternBlockV { pattern: None, block: some_action(sts) },
                    q,
                ),
                POut::PErr(x) => POut::PErr(x),
            },
            _ => match p_expr(s, toks, p) {
                POut::POk(e, q) => if q > p {
                    if kind_at(toks, q) == Some(TokKind::LBrace) {
                        match p_stmts(s, toks, q + 1) {
                            POut::POk(sts, q2) => POut::POk(
                                PatternBlockV {
                                    pattern: Some(PatternV::ExprP(Box::new(e))),
                                    block: some_action(sts),
                                },
                                q2,
                            ),
                            POut::PErr(x) => POut::PErr(x),
                        }
                    } else {
                        POut::POk(
                            PatternBlockV {
                                pattern: Some(PatternV::ExprP(Box::new(e))),
                                block: None,
                            },
                            q,
                        )
                    }
                } else {
                    POut::PErr(tok_pos(s, toks, p))
                },
                POut::PErr(x) => POut::PErr(x),
            },
        }
    }
}

/// True when the tokens at `p` begin a function definition: a name, a
/// parenthesized list of names, and an opening brace.
pub open spec fn at_fndef(s: Seq<char>, toks: Seq<Token>, p: int) -> bool {
    &&& 0 <= p < toks.len()
    &&& toks[p].kind == TokKind::Ident
    &&& kind_at(toks, p + 1) == Some(TokKind::LParen)
    &&& match p_params(s, toks, p + 2) {
        POut::POk(ps, q) => kind_at(toks, q) == Some(TokKind::LBrace),
        POut::PErr(_) => false,
    }
}

/// The top-level items from `p` on: rules and function definitions, in
/// order.
pub open spec fn p_top(s: Seq<char>, toks: Seq<Token>, p: int) -> POut<ProgramV>
    decreases rem_toks(toks, p), 12int,
{
    if p < 0 || p >= toks.len() {
        POut::POk(ProgramV { pattern_blocks: Seq::empty(), function_defs: Seq::empty() }, p)
    } else if at_fndef(s, toks, p) {
        match tok_text(s, toks[p]) {
            Some(name) => match p_params(s, toks, p + 2) {
                POut::POk(ps, q) => if q <= p + 2 {
                    POut::PErr(tok_pos(s, toks, p))
                } else {
                    match p_stmts(s, toks, q + 1) {
                    POut::POk(body, q2) => if q2 > p {
                        match p_top(s, toks, q2) {
                            POut::POk(prog, q3) => POut::POk(
                                ProgramV {
                                    pattern_blocks: prog.pattern_blocks,
                                    function_defs: seq![
                                        FunctionDefV { name, params: ps, body },
                                    ] + prog.function_defs,
                                },
                                q3,
                            ),
                            POut::PErr(x) => POut::PErr(x),
                        }
                    } else {
                        POut::PErr(tok_pos(s, toks, p))
                    },
                    POut::PErr(x) => POut::PErr(x),
                    }
                },
                POut::PErr(x) => POut::PErr(x),
            },
            None => POut::PErr(toks[p].lo as int),
        }
    } else {
        match p_pattern_block(s, toks, p) {
            POut::POk(pb, q) => if q > p {
                match p_top(s, toks, q) {
                    POut::POk(prog, q2) => POut::POk(
                        ProgramV {
                            pattern_blocks: seq![pb] + prog.pattern_blocks,
                            function_defs: prog.function_defs,
                        },
                        q2,
                    ),
                    POut::PErr(x) => POut::PErr(x),
                }
            } else {
                POut::PErr(tok_pos(s, toks, p))
            },
            POut::PErr(x) => POut::PErr(x),
        }
    }
}

/// What parsing a program text means: lex it, then read top-level items
/// to the end.
pub open spec fn parse_spec(s: Seq<char>) -> Result<ProgramV, int> {
    match lex_spec(s) {
        Ok(ts) => match p_top(s, ts, 0) {
            POut::POk(prog, q) => Ok(prog),
            POut::PErr(x) => Err(x),
        },
        Err(x) => Err(x),
    }
}

/// True for the token kinds that can begin an operand.
fn starts_operand_exec(k: TokKind) -> (r: bool)
    ensures
        r == starts_operand(k),
{
    match k {
        TokKind::Ident => true,
        TokKind::StrLit => true,
        TokKind::RegexLit => true,
        TokKind::NumLit { .. } => true,
        TokKind::ColRef { .. } => true,
        TokKind::LParen => true,
        _ => false,
    }
}

/// An action block as parsed: an empty block counts as no action.
fn make_action(sts: Vec<Statement>) -> (r: Option<Block>)
    ensures
        match r {
            Some(b) => b.statements@ == sts@ && some_action(stmts_view(&sts, 0)) == Some(
                b.deep_view(),
            ),
            None => some_action(stmts_view(&sts, 0)) is None,
        },
{
    proof {
        lemma_stmts_view_index(&sts, 0);
    }
    if sts.len() == 0 {
        None
    } else {
        Some(Block { statements: sts })
    }
}

/// The parser's state: the program text as characters, and its tokens.
pub struct ChawkParser {
    pub src: Vec<char>,
    pub toks: Vec<Token>,
}

impl ChawkParser {
    /// The kind of the token at `p`, if any.
    fn kat(&self, p: usize) -> (k: Option<TokKind>)
        ensures
            k == kind_at(self.toks@, p as int),
    {
        if p < self.toks.len() {
            Some(self.toks[p].kind)
        } else {
            None
        }
    }

    /// A syntax fault at the token at `p`.
    fn err_at(&self, p: usize) -> (e: SyntaxError)
        ensures
            e.pos as int == tok_pos(self.src@, self.toks@, p as int),
    {
        if p < self.toks.len() {
            SyntaxError { pos: self.toks[p].lo }
        } else {
            SyntaxError { pos: self.src.len() }
        }
    }

    /// The text of a token, when its span lies inside the source.
    fn text_of(&self, t: Token) -> (r: Option<String>)
        ensures
            match r {
                Some(st) => tok_text(self.src@, t) == Some(st@),
                None => tok_text(self.src@, t) is None,
            },
    {
        if t.lo <= t.hi && t.hi <= self.src.len() {
            Some(range_to_string(&self.src, t.lo, t.hi))
        } else {
            None
        }
    }

    /// An atom of the expression grammar.
    fn atom(&self, p: usize) -> (r: Result<(Expression, usize), SyntaxError>)
        requires
            p <= self.toks@.len(),
        ensures
            match r {
                Ok(eq) => p_atom(self.src@, self.toks@, p as int) == POut::POk(
                    eq.0.deep_view(),
                    eq.1 as int,
                ) && p < eq.1 <= self.toks@.len(),
                Err(er) => p_atom(self.src@, self.toks@, p as int) == POut::PErr::<ExprV>(
                    er.pos as int,
                ),
            },
        decreases self.toks@.len() - p, 0int,
    {
        if p >= self.toks.len() {
            return Err(self.err_at(p));
        }
        let t = self.toks[p];
        match t.kind {
            TokKind::StrLit => match self.text_of(t) {
                Some(st) => Ok((Expression::Str { value: st }, p + 1)),
                None => Err(SyntaxError { pos: t.lo }),
            },
            TokKind::RegexLit => match self.text_of(t) {
                Some(st) => match compile_ere(st.as_str()) {
                    Some(_re) => Ok((Expression::Regex { source: st }, p + 1)),
                    None => Err(SyntaxError { pos: t.lo }),
                },
                None => Err(SyntaxError { pos: t.lo }),
            },
            TokKind::NumLit { units } => Ok((Expression::Num(crate::num::Fixed { units }), p + 1)),
            TokKind::ColRef { idx } => Ok((Expression::ColumnNumber(idx), p + 1)),
            TokKind::Ident => match self.text_of(t) {
                Some(st) => Ok((Expression::VarLookup(Id(st)), p + 1)),
                None => Err(SyntaxError { pos: t.lo }),
            },
            TokKind::LParen => match self.expr(p + 1) {
                Ok((e, q)) => match self.kat(q) {
                    Some(TokKind::RParen) => Ok((e, q + 1)),
                    _ => Err(self.err_at(q)),
                },
                Err(er) => Err(er),
            },
            _ => Err(SyntaxError { pos: t.lo }),
        }
    }

    /// The remaining `*`, `/`, `%` steps of a multiplicative chain.
    fn mul_rest(&self, p: usize, acc: Expression) -> (r: Result<(Expression, usize), SyntaxError>)
        requires
            p <= self.toks@.len(),
        ensures
            match r {
                Ok(eq) => p_mul_rest(self.src@, self.toks@, p as int, acc.deep_view())
                    == POut::POk(eq.0.deep_view(), eq.1 as int) && p <= eq.1 <= self.toks@.len(),
                Err(er) => p_mul_rest(self.src@, self.toks@, p as int, acc.deep_view())
                    == POut::PErr::<ExprV>(er.pos as int),
            },
        decreases self.toks@.len() - p, 1int,
    {
        let op = match self.kat(p) {
            Some(TokKind::Star) => Some(ArithOp::Times),
            Some(TokKind::Slash) => Some(ArithOp::Div),
            Some(TokKind::Percent) => Some(ArithOp::Modulo),
            _ => None,
        };
        match op {
            Some(o) => {
                let n = self.toks.len();
                assert(p < n);
                match self.atom(p + 1) {
                Ok((e, q)) => {
                    let combined = match o {
                        ArithOp::Plus => Expression::Plus(Box::new(acc), Box::new(e)),
                        ArithOp::Minus => Expression::Minus(Box::new(acc), Box::new(e)),
                        ArithOp::Times => Expression::Times(Box::new(acc), Box::new(e)),
                        ArithOp::Div => Expression::Div(Box::new(acc), Box::new(e)),
                        ArithOp::Modulo => Expression::Modulo(Box::new(acc), Box::new(e)),
                    };
                    self.mul_rest(q, combined)
                },
                Err(er) => Err(er),
                }
            },
            None => Ok((acc, p)),
        }
    }

    /// A multiplicative chain.
    fn mul_tier(&self, p: usize) -> (r: Result<(Expression, usize), SyntaxError>)
        requires
            p <= self.toks@.len(),
        ensures
            match r {
                Ok(eq) => p_mul(self.src@, self.toks@, p as int) == POut::POk(
                    eq.0.deep_view(),
                    eq.1 as int,
                ) && p < eq.1 <= self.toks@.len(),
                Err(er) => p_mul(self.src@, self.toks@, p as int) == POut::PErr::<ExprV>(
                    er.pos as int,
                ),
            },
        decreases self.toks@.len() - p, 2int,
    {
        match self.atom(p) {
            Ok((e, q)) => self.mul_rest(q, e),
            Err(er) => Err(er),
        }
    }

    /// The remaining `+`, `-` steps of an additive chain.
    fn add_rest(&self, p: usize, acc: Expression) -> (r: Result<(Expression, usize), SyntaxError>)
        requires
            p <= self.toks@.len(),
        ensures
            match r {
                Ok(eq) => p_add_rest(self.src@, self.toks@, p as int, acc.deep_view())
                    == POut::POk(eq.0.deep_view(), eq.1 as int) && p <= eq.1 <= self.toks@.len(),
                Err(er) => p_add_rest(self.src@, self.toks@, p as int, acc.deep_view())
                    == POut::PErr::<ExprV>(er.pos as int),
            },
        decreases self.toks@.len() - p, 3int,
    {
        let op = match self.kat(p) {
            Some(TokKind::Plus) => Some(ArithOp::Plus),
            Some(TokKind::Minus) => Some(ArithOp::Minus),
            _ => None,
        };
        match op {
            Some(o) => {
                let n = self.toks.len();
                assert(p < n);
                match self.mul_tier(p + 1) {
                Ok((e, q)) => {
                    let combined = match o {
                        ArithOp::Plus => Expression::Plus(Box::new(acc), Box::new(e)),
                        ArithOp::Minus => Expression::Minus(Box::new(acc), Box::new(e)),
                        ArithOp::Times => Expression::Times(Box::new(acc), Box::new(e)),
                        ArithOp::Div => Expression::Div(Box::new(acc), Box::new(e)),
                        ArithOp::Modulo => Expression::Modulo(Box::new(acc), Box::new(e)),
                    };
                    self.add_rest(q, combined)
                },
                Err(er) => Err(er),
                }
            },
            None => Ok((acc, p)),
        }
    }

    /// An additive chain.
    fn add_tier(&self, p: usize) -> (r: Result<(Expression, usize), SyntaxError>)
        requires
            p <= self.toks@.len(),
        ensures
            match r {
                Ok(eq) => p_add(self.src@, self.toks@, p as int) == POut::POk(
                    eq.0.deep_view(),
                    eq.1 as int,
                ) && p < eq.1 <= self.toks@.len(),
                Err(er) => p_add(self.src@, self.toks@, p as int) == POut::PErr::<ExprV>(
                    er.pos as int,
                ),
            },
        decreases self.toks@.len() - p, 4int,
    {
        match self.mul_tier(p) {
            Ok((e, q)) => self.add_rest(q, e),
            Err(er) => Err(er),
        }
    }

    /// One or more comma-separated arguments, closed by a parenthesis.
    fn args_more(&self, p: usize) -> (r: Result<(Vec<Box<Expression>>, usize), SyntaxError>)
        requires
            p <= self.toks@.len(),
        ensures
            match r {
                Ok(vq) => p_args_more(self.src@, self.toks@, p as int) == POut::POk(
                    args_view(&vq.0, 0),
                    vq.1 as int,
                ) && p < vq.1 <= self.toks@.len(),
                Err(er) => p_args_more(self.src@, self.toks@, p as int) == POut::PErr::<
                    Seq<ExprV>,
                >(er.pos as int),
            },
        decreases self.toks@.len() - p, 5int,
    {
        match self.add_tier(p) {
            Ok((e, q)) => {
                if matches!(self.kat(q), Some(TokKind::Comma)) {
                    let n = self.toks.len();
                    assert(q < n);
                    match self.args_more(q + 1) {
                        Ok((mut rest, q2)) => {
                            let ghost ev = e.deep_view();
                            let ghost pre = args_view(&rest, 0);
                            let ghost rv = rest@;
                            proof {
                                lemma_args_view_index(&rest, 0);
                            }
                            let b = Box::new(e);
                            let ghost bg = b;
                            rest.insert(0, b);
                            proof {
                                lemma_args_view_index(&rest, 0);
                                assert(rest@ =~= seq![bg] + rv);
                                assert(args_view(&rest, 0) =~= seq![ev] + pre);
                            }
                            Ok((rest, q2))
                        },
                        Err(er) => Err(er),
                    }
                } else if matches!(self.kat(q), Some(TokKind::RParen)) {
                    let tl = self.toks.len();
                    assert(q < tl);
                    let ghost ev = e.deep_view();
                    let mut v: Vec<Box<Expression>> = Vec::new();
                    v.push(Box::new(e));
                    proof {
                        lemma_args_view_index(&v, 0);
                        assert(args_view(&v, 0) =~= seq![ev]);
                    }
                    Ok((v, q + 1))
                } else {
                    Err(self.err_at(q))
                }
            },
            Err(er) => Err(er),
        }
    }

    /// A call's argument list after its opening parenthesis.
    fn args(&self, p: usize) -> (r: Result<(Vec<Box<Expression>>, usize), SyntaxError>)
        requires
            p <= self.toks@.len(),
        ensures
            match r {
                Ok(vq) => p_args(self.src@, self.toks@, p as int) == POut::POk(
                    args_view(&vq.0, 0),
                    vq.1 as int,
                ) && p < vq.1 <= self.toks@.len(),
                Err(er) => p_args(self.src@, self.toks@, p as int) == POut::PErr::<Seq<ExprV>>(
                    er.pos as int,
                ),
            },
        decreases self.toks@.len() - p, 6int,
    {
        if p < self.toks.len() && matches!(self.toks[p].kind, TokKind::RParen) {
            let v: Vec<Box<Expression>> = Vec::new();
            proof {
                lemma_args_view_index(&v, 0);
                assert(args_view(&v, 0) =~= Seq::<ExprV>::empty());
            }
            Ok((v, p + 1))
        } else {
            self.args_more(p)
        }
    }

    /// A function call, or an additive chain.
    fn call_tier(&self, p: usize) -> (r: Result<(Expression, usize), SyntaxError>)
        requires
            p <= self.toks@.len(),
        ensures
            match r {
                Ok(eq) => p_call(self.src@, self.toks@, p as int) == POut::POk(
                    eq.0.deep_view(),
                    eq.1 as int,
                ) && p < eq.1 <= self.toks@.len(),
                Err(er) => p_call(self.src@, self.toks@, p as int) == POut::PErr::<ExprV>(
                    er.pos as int,
                ),
            },
        decreases self.toks@.len() - p, 7int,
    {
        if p < self.toks.len() {
            let t = self.toks[p];
            if matches!(t.kind, TokKind::Ident) && matches!(self.kat(p + 1), Some(
                TokKind::LParen,
            )) {
                match self.text_of(t) {
                    Some(name) => match self.args(p + 2) {
                        Ok((arguments, q)) => Ok(
                            (Expression::FunctionCall { name: Id(name), arguments }, q),
                        ),
                        Err(er) => Err(er),
                    },
                    None => Err(SyntaxError { pos: t.lo }),
                }
            } else {
                self.add_tier(p)
            }
        } else {
            self.add_tier(p)
        }
    }

    /// The remaining juxtaposed operands of a concatenation.
    fn concat_rest(&self, p: usize, acc: Expression) -> (r: Result<
        (Expression, usize),
        SyntaxError,
    >)
        requires
            p <= self.toks@.len(),
        ensures
            match r {
                Ok(eq) => p_concat_rest(self.src@, self.toks@, p as int, acc.deep_view())
                    == POut::POk(eq.0.deep_view(), eq.1 as int) && p <= eq.1 <= self.toks@.len(),
                Err(er) => p_concat_rest(self.src@, self.toks@, p as int, acc.deep_view())
                    == POut::PErr::<ExprV>(er.pos as int),
            },
        decreases self.toks@.len() - p, 8int,
    {
        if p < self.toks.len() && starts_operand_exec(self.toks[p].kind) {
            match self.call_tier(p) {
                Ok((e, q)) => self.concat_rest(
                    q,
                    Expression::Concatenate(Box::new(acc), Box::new(e)),
                ),
                Err(er) => Err(er),
            }
        } else {
            Ok((acc, p))
        }
    }

    /// A concatenation of juxtaposed operands.
    fn concat_tier(&self, p: usize) -> (r: Result<(Expression, usize), SyntaxError>)
        requires
            p <= self.toks@.len(),
        ensures
            match r {
                Ok(eq) => p_concat(self.src@, self.toks@, p as int) == POut::POk(
                    eq.0.deep_view(),
                    eq.1 as int,
                ) && p < eq.1 <= self.toks@.len(),
                Err(er) => p_concat(self.src@, self.toks@, p as int) == POut::PErr::<ExprV>(
                    er.pos as int,
                ),
            },
        decreases self.toks@.len() - p, 9int,
    {
        match self.call_tier(p) {
            Ok((e, q)) => self.concat_rest(q, e),
            Err(er) => Err(er),
        }
    }

    /// A single optional comparison.
    #[verifier::rlimit(60)]
    fn rel_tier(&self, p: usize) -> (r: Result<(Expression, usize), SyntaxError>)
        requires
            p <= self.toks@.len(),
        ensures
            match r {
                Ok(eq) => p_rel(self.src@, self.toks@, p as int) == POut::POk(
                    eq.0.deep_view(),
                    eq.1 as int,
                ) && p < eq.1 <= self.toks@.len(),
                Err(er) => p_rel(self.src@, self.toks@, p as int) == POut::PErr::<ExprV>(
                    er.pos as int,
                ),
            },
        decreases self.toks@.len() - p, 10int,
    {
        match self.concat_tier(p) {
            Ok((l, q)) => {
                let op = match self.kat(q) {
                    Some(TokKind::Lt) => Some(CmpOp::Lt),
                    Some(TokKind::Le) => Some(CmpOp::Le),
                    Some(TokKind::Ne) => Some(CmpOp::Ne),
                    Some(TokKind::EqEq) => Some(CmpOp::EqEq),
                    Some(TokKind::Gt) => Some(CmpOp::Gt),
                    Some(TokKind::Ge) => Some(CmpOp::Ge),
                    _ => None,
                };
                match op {
                    Some(o) => {
                        let n = self.toks.len();
                        assert(q < n);
                        match self.concat_tier(q + 1) {
                        Ok((rr, q2)) => {
                            let combined = match o {
                                CmpOp::Lt => Expression::LessThan(Box::new(l), Box::new(rr)),
                                CmpOp::Le => Expression::LessEqual(Box::new(l), Box::new(rr)),
                                CmpOp::Ne => Expression::NotEqual(Box::new(l), Box::new(rr)),
                                CmpOp::EqEq => Expression::Equals(Box::new(l), Box::new(rr)),
                                CmpOp::Gt => Expression::GreaterThan(Box::new(l), Box::new(rr)),
                                CmpOp::Ge => Expression::GreaterEqual(Box::new(l), Box::new(rr)),
                            };
                            Ok((combined, q2))
                        },
                        Err(er) => Err(er),
                        }
                    },
                    None => Ok((l, q)),
                }
            },
            Err(er) => Err(er),
        }
    }

    /// A single optional `~` or `!~`.
    #[verifier::rlimit(60)]
    fn match_tier(&self, p: usize) -> (r: Result<(Expression, usize), SyntaxError>)
        requires
            p <= self.toks@.len(),
        ensures
            match r {
                Ok(eq) => p_match(self.src@, self.toks@, p as int) == POut::POk(
                    eq.0.deep_view(),
                    eq.1 as int,
                ) && p < eq.1 <= self.toks@.len(),
                Err(er) => p_match(self.src@, self.toks@, p as int) == POut::PErr::<ExprV>(
                    er.pos as int,
                ),
            },
        decreases self.toks@.len() - p, 11int,
    {
        match self.rel_tier(p) {
            Ok((l, q)) => {
                let neg = match self.kat(q) {
                    Some(TokKind::Match) => Some(false),
                    Some(TokKind::NotMatch) => Some(true),
                    _ => None,
                };
                match neg {
                    Some(n) => {
                        let tl = self.toks.len();
                        assert(q < tl);
                        match self.rel_tier(q + 1) {
                            Ok((rr, q2)) => if n {
                                Ok((Expression::RegexNotMatch(Box::new(l), Box::new(rr)), q2))
                            } else {
                                Ok((Expression::RegexMatch(Box::new(l), Box::new(rr)), q2))
                            },
                            Err(er) => Err(er),
                        }
                    },
                    None => Ok((l, q)),
                }
            },
            Err(er) => Err(er),
        }
    }

    /// A full expression.
    fn expr(&self, p: usize) -> (r: Result<(Expression, usize), SyntaxError>)
        requires
            p <= self.toks@.len(),
        ensures
            match r {
                Ok(eq) => p_expr(self.src@, self.toks@, p as int) == POut::POk(
                    eq.0.deep_view(),
                    eq.1 as int,
                ) && p < eq.1 <= self.toks@.len(),
                Err(er) => p_expr(self.src@, self.toks@, p as int) == POut::PErr::<ExprV>(
                    er.pos as int,
                ),
            },
        decreases self.toks@.len() - p, 12int,
    {
        if p < self.toks.len() {
            let t = self.toks[p];
            if matches!(t.kind, TokKind::Ident) {
                let is_assign = matches!(self.kat(p + 1), Some(TokKind::Assign));
                let is_plus = matches!(self.kat(p + 1), Some(TokKind::PlusAssign));
                if is_assign || is_plus {
                    match self.text_of(t) {
                        Some(name) => match self.match_tier(p + 2) {
                            Ok((e, q)) => if is_assign {
                                Ok((Expression::Assign(Id(name), Box::new(e)), q))
                            } else {
                                Ok((Expression::PlusAssign(Id(name), Box::new(e)), q))
                            },
                            Err(er) => Err(er),
                        },
                        None => Err(SyntaxError { pos: t.lo }),
                    }
                } else {
                    self.match_tier(p)
                }
            } else {
                self.match_tier(p)
            }
        } else {
            self.match_tier(p)
        }
    }

    /// A local declaration.
    fn local_decl(&self, p: usize) -> (r: Result<(Statement, usize), SyntaxError>)
        requires
            p <= self.toks@.len(),
            kind_at(self.toks@, p as int) == Some(TokKind::KwVar),
        ensures
            match r {
                Ok(sq) => p_local(self.src@, self.toks@, p as int) == POut::POk(
                    sq.0.deep_view(),
                    sq.1 as int,
                ) && p < sq.1 <= self.toks@.len(),
                Err(er) => p_local(self.src@, self.toks@, p as int) == POut::PErr::<StmtV>(
                    er.pos as int,
                ),
            },
        decreases self.toks@.len() - p, 13int,
    {
        let n = self.toks.len();
        assert(p < n);
        if p + 1 < n && matches!(self.toks[p + 1].kind, TokKind::Ident) {
            let t1 = self.toks[p + 1];
            match self.text_of(t1) {
                Some(name) => {
                    if matches!(self.kat(p + 2), Some(TokKind::Assign)) {
                        assert(p + 2 < n);
                        match self.expr(p + 3) {
                            Ok((e, q)) => Ok(
                                (
                                    Statement::LocalVarStatement {
                                        id: Id(name),
                                        initial_expression: Some(e),
                                    },
                                    q,
                                ),
                            ),
                            Err(er) => Err(er),
                        }
                    } else {
                        Ok(
                            (
                                Statement::LocalVarStatement {
                                    id: Id(name),
                                    initial_expression: None,
                                },
                                p + 2,
                            ),
                        )
                    }
                },
                None => Err(SyntaxError { pos: t1.lo }),
            }
        } else {
            Err(self.err_at(p + 1))
        }
    }

    /// A `for` statement.
    #[verifier::rlimit(100)]
    fn for_stmt(&self, p: usize) -> (r: Result<(Statement, usize), SyntaxError>)
        requires
            p <= self.toks@.len(),
        ensures
            match r {
                Ok(sq) => p_for(self.src@, self.toks@, p as int) == POut::POk(
                    sq.0.deep_view(),
                    sq.1 as int,
                ) && p < sq.1 <= self.toks@.len(),
                Err(er) => p_for(self.src@, self.toks@, p as int) == POut::PErr::<StmtV>(
                    er.pos as int,
                ),
            },
        decreases self.toks@.len() - p, 14int,
    {
        let n = self.toks.len();
        if p >= n {
            return Err(SyntaxError { pos: self.src.len() });
        }
        if !matches!(self.kat(p + 1), Some(TokKind::LParen)) {
            return Err(self.err_at(p + 1));
        }
        assert(p + 1 < n);
        let init_step: (Option<InitClause>, usize) = if matches!(
            self.kat(p + 2),
            Some(TokKind::Semicolon),
        ) {
            assert(p + 2 < n);
            (None, p + 3)
        } else if matches!(self.kat(p + 2), Some(TokKind::KwVar)) {
            assert(p + 2 < n);
            match self.local_decl(p + 2) {
                Ok((st, q)) => {
                    if matches!(self.kat(q), Some(TokKind::Semicolon)) {
                        assert(q < n);
                        (Some(InitClause::Declaration(Box::new(st))), q + 1)
                    } else {
                        return Err(self.err_at(q));
                    }
                },
                Err(er) => {
                    return Err(er);
                },
            }
        } else {
            match self.expr(p + 2) {
                Ok((e, q)) => {
                    if matches!(self.kat(q), Some(TokKind::Semicolon)) {
                        assert(q < n);
                        (Some(InitClause::Expression(e)), q + 1)
                    } else {
                        return Err(self.err_at(q));
                    }
                },
                Err(er) => {
                    return Err(er);
                },
            }
        };
        let init = init_step.0;
        let p2 = init_step.1;
        assert(p2 > p + 2);
        let cond_step: (Option<Expression>, usize) = if matches!(
            self.kat(p2),
            Some(TokKind::Semicolon),
        ) {
            assert(p2 < n);
            (None, p2 + 1)
        } else {
            match self.expr(p2) {
                Ok((e, q)) => {
                    if matches!(self.kat(q), Some(TokKind::Semicolon)) {
                        assert(q < n);
                        (Some(e), q + 1)
                    } else {
                        return Err(self.err_at(q));
                    }
                },
                Err(er) => {
                    return Err(er);
                },
            }
        };
        let cond = cond_step.0;
        let p3 = cond_step.1;
        assert(p3 > p2);
        let iter_step: (Option<Expression>, usize) = if matches!(
            self.kat(p3),
            Some(TokKind::RParen),
        ) {
            assert(p3 < n);
            (None, p3 + 1)
        } else {
            match self.expr(p3) {
                Ok((e, q)) => {
                    if matches!(self.kat(q), Some(TokKind::RParen)) {
                        assert(q < n);
                        (Some(e), q + 1)
                    } else {
                        return Err(self.err_at(q));
                    }
                },
                Err(er) => {
                    return Err(er);
                },
            }
        };
        let iter = iter_step.0;
        let p4 = iter_step.1;
        assert(p4 > p3);
        match self.stmt(p4) {
            Ok((b, q)) => Ok(
                (
                    Statement::ForStatement {
                        init_clause: init,
                        condition_expression: cond,
                        iteration_expression: iter,
                        body: Box::new(b),
                    },
                    q,
                ),
            ),
            Err(er) => Err(er),
        }
    }

    /// A statement.
    #[verifier::rlimit(100)]
    fn stmt(&self, p: usize) -> (r: Result<(Statement, usize), SyntaxError>)
        requires
            p <= self.toks@.len(),
        ensures
            match r {
                Ok(sq) => p_stmt(self.src@, self.toks@, p as int) == POut::POk(
                    sq.0.deep_view(),
                    sq.1 as int,
                ) && p < sq.1 <= self.toks@.len(),
                Err(er) => p_stmt(self.src@, self.toks@, p as int) == POut::PErr::<StmtV>(
                    er.pos as int,
                ),
            },
        decreases self.toks@.len() - p, 15int,
    {
        let n = self.toks.len();
        if p >= n {
            return Err(self.err_at(p));
        }
        match self.toks[p].kind {
            TokKind::KwPrint => match self.expr(p + 1) {
                Ok((e, q)) => Ok((Statement::PrintStatement(PrintStatement { expression: e }), q)),
                Err(er) => Err(er),
            },
            TokKind::KwVar => self.local_decl(p),
            TokKind::KwIf => {
                if matches!(self.kat(p + 1), Some(TokKind::LParen)) {
                    assert(p + 1 < n);
                    match self.expr(p + 2) {
                        Ok((c, q)) => {
                            if matches!(self.kat(q), Some(TokKind::RParen)) {
                                assert(q < n);
                                match self.stmt(q + 1) {
                                    Ok((t, q2)) => {
                                        if matches!(self.kat(q2), Some(TokKind::KwElse)) {
                                            assert(q2 < n);
                                            match self.stmt(q2 + 1) {
                                                Ok((f, q3)) => Ok(
                                                    (
                                                        Statement::IfStatement {
                                                            condition: c,
                                                            true_statement: Box::new(t),
                                                            false_statement: Some(Box::new(f)),
                                                        },
                                                        q3,
                                                    ),
                                                ),
                                                Err(er) => Err(er),
                                            }
                                        } else {
                                            Ok(
                                                (
                                                    Statement::IfStatement {
                                                        condition: c,
                                                        true_statement: Box::new(t),
                                                        false_statement: None,
                                                    },
                                                    q2,
                                                ),
                                            )
                                        }
                                    },
                                    Err(er) => Err(er),
                                }
                            } else {
                                Err(self.err_at(q))
                            }
                        },
                        Err(er) => Err(er),
                    }
                } else {
                    Err(self.err_at(p + 1))
                }
            },
            TokKind::KwWhile => {
                if matches!(self.kat(p + 1), Some(TokKind::LParen)) {
                    assert(p + 1 < n);
                    match self.expr(p + 2) {
                        Ok((c, q)) => {
                            if matches!(self.kat(q), Some(TokKind::RParen)) {
                                assert(q < n);
                                match self.stmt(q + 1) {
                                    Ok((b, q2)) => Ok(
                                        (
                                            Statement::WhileStatement {
                                                condition: c,
                                                body: Box::new(b),
                                            },
                                            q2,
                                        ),
                                    ),
                                    Err(er) => Err(er),
                                }
                            } else {
                                Err(self.err_at(q))
                            }
                        },
                        Err(er) => Err(er),
                    }
                } else {
                    Err(self.err_at(p + 1))
                }
            },
            TokKind::KwFor => self.for_stmt(p),
            TokKind::KwReturn => match self.expr(p + 1) {
                Ok((e, q)) => Ok((Statement::ReturnStatement(e), q)),
                Err(er) => Err(er),
            },
            TokKind::LBrace => match self.stmts(p + 1) {
                Ok((sts, q)) => Ok((Statement::BlockStatement(Block { statements: sts }), q)),
                Err(er) => Err(er),
            },
            _ => match self.expr(p) {
                Ok((e, q)) => Ok((Statement::ExpressionStatement(e), q)),
                Err(er) => Err(er),
            },
        }
    }

    /// The statements of a block, up to and including its closing brace.
    fn stmts(&self, p: usize) -> (r: Result<(Vec<Statement>, usize), SyntaxError>)
        requires
            p <= self.toks@.len(),
        ensures
            match r {
                Ok(vq) => p_stmts(self.src@, self.toks@, p as int) == POut::POk(
                    stmts_view(&vq.0, 0),
                    vq.1 as int,
                ) && p < vq.1 <= self.toks@.len(),
                Err(er) => p_stmts(self.src@, self.toks@, p as int) == POut::PErr::<Seq<StmtV>>(
                    er.pos as int,
                ),
            },
        decreases self.toks@.len() - p, 16int,
    {
        let n = self.toks.len();
        if p >= n {
            return Err(self.err_at(p));
        }
        if matches!(self.toks[p].kind, TokKind::RBrace) {
            let v: Vec<Statement> = Vec::new();
            proof {
                lemma_stmts_view_index(&v, 0);
                assert(stmts_view(&v, 0) =~= Seq::<StmtV>::empty());
            }
            return Ok((v, p + 1));
        }
        match self.stmt(p) {
            Ok((st, q)) => match self.stmts(q) {
                Ok((mut rest, q2)) => {
                    let ghost stv = st.deep_view();
                    let ghost pre = stmts_view(&rest, 0);
                    let ghost rv = rest@;
                    proof {
                        lemma_stmts_view_index(&rest, 0);
                    }
                    let ghost stg = st;
                    rest.insert(0, st);
                    proof {
                        lemma_stmts_view_index(&rest, 0);
                        assert(rest@ =~= seq![stg] + rv);
                        assert(stmts_view(&rest, 0) =~= seq![stv] + pre);
                    }
                    Ok((rest, q2))
                },
                Err(er) => Err(er),
            },
            Err(er) => Err(er),
        }
    }

    /// A parameter list after its opening parenthesis.
    fn params(&self, p: usize) -> (r: Result<(Vec<Id>, usize), SyntaxError>)
        requires
            p <= self.toks@.len(),
        ensures
            match r {
                Ok(vq) => p_params(self.src@, self.toks@, p as int) == POut::POk(
                    ids_view(vq.0@),
                    vq.1 as int,
                ) && p < vq.1 <= self.toks@.len(),
                Err(er) => p_params(self.src@, self.toks@, p as int) == POut::PErr::<
                    Seq<Seq<char>>,
                >(er.pos as int),
            },
        decreases self.toks@.len() - p, 13int,
    {
        let n = self.toks.len();
        if p < n && matches!(self.toks[p].kind, TokKind::RParen) {
            let v: Vec<Id> = Vec::new();
            proof {
                assert(ids_view(v@) =~= Seq::<Seq<char>>::empty());
            }
            return Ok((v, p + 1));
        }
        if p < n && matches!(self.toks[p].kind, TokKind::Ident) {
            let t = self.toks[p];
            match self.text_of(t) {
                Some(name) => {
                    if matches!(self.kat(p + 1), Some(TokKind::Comma)) {
                        assert(p + 1 < n);
                        match self.params(p + 2) {
                            Ok((mut rest, q)) => {
                                if rest.len() > 0 {
                                    let ghost rv = rest@;
                                    let ghost namev = name@;
                                    let idv = Id(name);
                                    let ghost idg = idv;
                                    rest.insert(0, idv);
                                    proof {
                                        assert(rest@ =~= seq![idg] + rv);
                                        assert(ids_view(rest@) =~= seq![namev] + ids_view(rv));
                                    }
                                    Ok((rest, q))
                                } else {
                                    Err(self.err_at(p + 2))
                                }
                            },
                            Err(er) => Err(er),
                        }
                    } else if matches!(self.kat(p + 1), Some(TokKind::RParen)) {
                        assert(p + 1 < n);
                        let ghost namev = name@;
                        let mut v: Vec<Id> = Vec::new();
                        v.push(Id(name));
                        proof {
                            assert(ids_view(v@) =~= seq![namev]);
                        }
                        Ok((v, p + 2))
                    } else {
                        Err(self.err_at(p + 1))
                    }
                },
                None => Err(SyntaxError { pos: t.lo }),
            }
        } else {
            Err(self.err_at(p))
        }
    }

    /// One rule: a pattern, an action block, or both.
    #[verifier::rlimit(100)]
    fn pattern_block(&self, p: usize) -> (r: Result<(PatternBlock, usize), SyntaxError>)
        requires
            p <= self.toks@.len(),
        ensures
            match r {
                Ok(pq) => p_pattern_block(self.src@, self.toks@, p as int) == POut::POk(
                    pq.0.deep_view(),
                    pq.1 as int,
                ) && p < pq.1 <= self.toks@.len(),
                Err(er) => p_pattern_block(self.src@, self.toks@, p as int) == POut::PErr::<
                    PatternBlockV,
                >(er.pos as int),
            },
        decreases self.toks@.len() - p, 17int,
    {
        let n = self.toks.len();
        if p >= n {
            return Err(self.err_at(p));
        }
        match self.toks[p].kind {
            TokKind::KwBegin => {
                if matches!(self.kat(p + 1), Some(TokKind::LBrace)) {
                    assert(p + 1 < n);
                    match self.stmts(p + 2) {
                        Ok((sts, q)) => Ok(
                            (
                                PatternBlock {
                                    pattern: Some(Pattern::Begin),
                                    block: make_action(sts),
                                },
                                q,
                            ),
                        ),
                        Err(er) => Err(er),
                    }
                } else {
                    Ok((PatternBlock { pattern: Some(Pattern::Begin), block: None }, p + 1))
                }
            },
            TokKind::KwEnd => {
                if matches!(self.kat(p + 1), Some(TokKind::LBrace)) {
                    assert(p + 1 < n);
                    match self.stmts(p + 2) {
                        Ok((sts, q)) => Ok(
                            (
                                PatternBlock {
                                    pattern: Some(Pattern::End),
                                    block: make_action(sts),
                                },
                                q,
                            ),
                        ),
                        Err(er) => Err(er),
                    }
                } else {
                    Ok((PatternBlock { pattern: Some(Pattern::End), block: None }, p + 1))
                }
            },
            TokKind::LBrace => match self.stmts(p + 1) {
                Ok((sts, q)) => Ok(
                    (PatternBlock { pattern: None, block: make_action(sts) }, q),
                ),
                Err(er) => Err(er),
            },
            _ => match self.expr(p) {
                Ok((e, q)) => {
                    if matches!(self.kat(q), Some(TokKind::LBrace)) {
                        assert(q < n);
                        match self.stmts(q + 1) {
                            Ok((sts, q2)) => Ok(
                                (
                                    PatternBlock {
                                        pattern: Some(Pattern::Expression(e)),
                                        block: make_action(sts),
                                    },
                                    q2,
                                ),
                            ),
                            Err(er) => Err(er),
                        }
                    } else {
                        Ok((PatternBlock { pattern: Some(Pattern::Expression(e)), block: None }, q))
                    }
                },
                Err(er) => Err(er),
            },
        }
    }

    /// A top-level item that is not a function definition, then the rest.
    #[verifier::rlimit(100)]
    fn top_pb(&self, p: usize) -> (r: Result<
        (Vec<PatternBlock>, Vec<FunctionDef>, usize),
        SyntaxError,
    >)
        requires
            p < self.toks@.len(),
            !at_fndef(self.src@, self.toks@, p as int),
        ensures
            match r {
                Ok(vq) => p_top(self.src@, self.toks@, p as int) == POut::POk(
                    ProgramV {
                        pattern_blocks: pbs_view(vq.0@),
                        function_defs: fds_view(vq.1@),
                    },
                    vq.2 as int,
                ) && p <= vq.2 <= self.toks@.len(),
                Err(er) => p_top(self.src@, self.toks@, p as int) == POut::PErr::<ProgramV>(
                    er.pos as int,
                ),
            },
        decreases self.toks@.len() - p, 18int,
    {
        match self.pattern_block(p) {
            Ok((pb, q)) => match self.top(q) {
                Ok((mut pbs, fds, q2)) => {
                    let ghost pbv = pb.deep_view();
                    let ghost pv = pbs_view(pbs@);
                    let ghost pr = pbs@;
                    let ghost pbg = pb;
                    pbs.insert(0, pb);
                    proof {
                        assert(pbs@ =~= seq![pbg] + pr);
                        assert(pbs_view(pbs@) =~= seq![pbv] + pv);
                    }
                    Ok((pbs, fds, q2))
                },
                Err(er) => Err(er),
            },
            Err(er) => Err(er),
        }
    }

    /// The top-level items from `p` on: rules and function definitions.
    #[verifier::rlimit(100)]
    fn top(&self, p: usize) -> (r: Result<
        (Vec<PatternBlock>, Vec<FunctionDef>, usize),
        SyntaxError,
    >)
        requires
            p <= self.toks@.len(),
        ensures
            match r {
                Ok(vq) => p_top(self.src@, self.toks@, p as int) == POut::POk(
                    ProgramV {
                        pattern_blocks: pbs_view(vq.0@),
                        function_defs: fds_view(vq.1@),
                    },
                    vq.2 as int,
                ) && p <= vq.2 <= self.toks@.len(),
                Err(er) => p_top(self.src@, self.toks@, p as int) == POut::PErr::<ProgramV>(
                    er.pos as int,
                ),
            },
        decreases self.toks@.len() - p, 19int,
    {
        let n = self.toks.len();
        if p >= n {
            let v1: Vec<PatternBlock> = Vec::new();
            let v2: Vec<FunctionDef> = Vec::new();
            proof {
                assert(pbs_view(v1@) =~= Seq::<PatternBlockV>::empty());
                assert(fds_view(v2@) =~= Seq::<FunctionDefV>::empty());
            }
            return Ok((v1, v2, p));
        }
        let t = self.toks[p];
        if matches!(t.kind, TokKind::Ident) && matches!(self.kat(p + 1), Some(TokKind::LParen)) {
            assert(p + 1 < n);
            match self.params(p + 2) {
                Ok((ps, q)) => {
                    if matches!(self.kat(q), Some(TokKind::LBrace)) {
                        assert(at_fndef(self.src@, self.toks@, p as int));
                        assert(q < n);
                        match self.text_of(t) {
                            Some(name) => match self.stmts(q + 1) {
                                Ok((body_vec, q2)) => {
                                    assert(q2 > p);
                                    match self.top(q2) {
                                        Ok((pbs, mut fds, q3)) => {
                                            let ghost namev = name@;
                                            let ghost psv = ids_view(ps@);
                                            let ghost bodyv = stmts_view(&body_vec, 0);
                                            let fd = FunctionDef {
                                                name: Id(name),
                                                parameters: ps,
                                                body: Block { statements: body_vec },
                                            };
                                            let ghost fdg = fd;
                                            let ghost fv = fds_view(fds@);
                                            let ghost fr = fds@;
                                            fds.insert(0, fd);
                                            proof {
                                                assert(fds@ =~= seq![fdg] + fr);
                                                assert(fdg.deep_view() == FunctionDefV {
                                                    name: namev,
                                                    params: psv,
                                                    body: bodyv,
                                                });
                                                assert(fds_view(fds@) =~= seq![fdg.deep_view()]
                                                    + fv);
                                            }
                                            Ok((pbs, fds, q3))
                                        },
                                        Err(er) => Err(er),
                                    }
                                },
                                Err(er) => Err(er),
                            },
                            None => Err(SyntaxError { pos: t.lo }),
                        }
                    } else {
                        proof {
                            assert(!at_fndef(self.src@, self.toks@, p as int));
                        }
                        self.top_pb(p)
                    }
                },
                Err(_er) => {
                    proof {
                        assert(!at_fndef(self.src@, self.toks@, p as int));
                    }
                    self.top_pb(p)
                },
            }
        } else {
            proof {
                assert(!at_fndef(self.src@, self.toks@, p as int));
            }
            self.top_pb(p)
        }
    }
}

/// Parses a program text into its tree, or reports the offset of its
/// first fault.
pub fn parse(source: &str) -> (r: Result<Program, SyntaxError>)
    ensures
        match r {
            Ok(prog) => parse_spec(source@) == Ok::<ProgramV, int>(prog.deep_view()),
            Err(e) => parse_spec(source@) == Err::<ProgramV, int>(e.pos as int),
        },
{
    let src = to_chars(source);
    let toks = match lex(&src) {
        Ok(ts) => ts,
        Err(e) => {
            return Err(e);
        },
    };
    let parser = ChawkParser { src, toks };
    match parser.top(0) {
        Ok((pbs, fds, _q)) => Ok(Program { pattern_blocks: pbs, function_defs: fds }),
        Err(e) => Err(e),
    }
}

} // verus!
