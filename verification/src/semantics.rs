//! The meaning of a program: a fuel-indexed big-step evaluator over the
//! ghost model.
//!
//! Every recursive step spends one unit of fuel, so evaluation is total;
//! the interpreter runs with a budget too large to exhaust in practice,
//! and running out is reported as a fault.  The state carries the current
//! record, its fields, the global and local scopes, the printed lines,
//! and the warnings.

use vstd::prelude::*;
use crate::ast::{ExprV, StmtV, InitV, PatternV, PatternBlockV, FunctionDefV, ProgramV, ArithOp};
use crate::value::{ValV, to_num_v, to_bool_v, to_text_v, from_bool_v, cmp_v, concat_v};
use crate::num::{fx_add, fx_sub, fx_mul, fx_div, fx_rem, fx_clamp};
use crate::fields::split_fields;
use crate::strutil::is_substring;
use crate::ere::{ere_valid, ere_match};

verus! {

/// The evaluation budget: each recursive evaluation step spends one unit.
pub const EVAL_FUEL: u64 = 18446744073709551615;

/// What the warning channel records when a regex literal stands on the
/// left of a match operator.
pub const LEFT_REGEX_WARNING: &'static str =
    "regular expression on the left of a match operator";

/// A fatal fault of a running program.
#[derive(Debug, Clone, Copy, PartialEq, Eq, Structural)]
pub enum RuntimeError {
    ReturnOutsideFunction,
    MissingBeginAction,
    MissingEndAction,
    UndefinedFunction,
    TooManyArguments,
    DuplicateLocal,
    NoScope,
    UnsupportedExpression,
    OutOfFuel,
}

/// Ghost model of the interpreter's state.
#[verifier::ext_equal]
pub struct StV {
    pub line: Seq<char>,
    pub cols: Seq<Seq<char>>,
    pub globals: Seq<(Seq<char>, ValV)>,
    pub locals: Seq<Seq<(Seq<char>, ValV)>>,
    pub out: Seq<Seq<char>>,
    pub warns: Seq<Seq<char>>,
}

/// Outcome of evaluating an expression.
#[verifier::ext_equal]
pub struct ExpOut {
    pub st: StV,
    pub res: Result<ValV, RuntimeError>,
}

/// Outcome of running a statement: `Ok(Some(v))` is a propagating
/// `return`.
#[verifier::ext_equal]
pub struct StmOut {
    pub st: StV,
    pub res: Result<Option<ValV>, RuntimeError>,
}

/// Outcome of building a call's argument scope.
#[verifier::ext_equal]
pub struct ValsOut {
    pub st: StV,
    pub res: Result<Seq<(Seq<char>, ValV)>, RuntimeError>,
}

/// Outcome of a whole phase or run.
#[verifier::ext_equal]
pub struct RunOut {
    pub st: StV,
    pub err: Option<RuntimeError>,
}

/// The first binding of `k` in a scope, at or after position `i`.
pub open spec fn scope_read_from(
    sc: Seq<(Seq<char>, ValV)>,
    k: Seq<char>,
    i: int,
) -> Option<ValV>
    decreases sc.len() - i,
{
    if i < 0 || i >= sc.len() {
        None
    } else if sc[i].0 == k {
        Some(sc[i].1)
    } else {
        scope_read_from(sc, k, i + 1)
    }
}

/// The binding of `k` in a scope, if any.
pub open spec fn scope_read(sc: Seq<(Seq<char>, ValV)>, k: Seq<char>) -> Option<ValV> {
    scope_read_from(sc, k, 0)
}

/// Overwrites the first binding of `k` at or after `i`, or appends one.
pub open spec fn scope_write_from(
    sc: Seq<(Seq<char>, ValV)>,
    k: Seq<char>,
    v: ValV,
    i: int,
) -> Seq<(Seq<char>, ValV)>
    decreases sc.len() - i,
{
    if i < 0 || i >= sc.len() {
        sc.push((k, v))
    } else if sc[i].0 == k {
        sc.update(i, (k, v))
    } else {
        scope_write_from(sc, k, v, i + 1)
    }
}

/// Binds `k` to `v` in a scope: overwrites its binding or appends one.
pub open spec fn scope_write(sc: Seq<(Seq<char>, ValV)>, k: Seq<char>, v: ValV) -> Seq<
    (Seq<char>, ValV),
> {
    scope_write_from(sc, k, v, 0)
}

/// The binding of `k` in the local scopes, searching from the innermost
/// (the last) outward, starting at layer `i`.
pub open spec fn locals_read_down(
    ls: Seq<Seq<(Seq<char>, ValV)>>,
    k: Seq<char>,
    i: int,
) -> Option<ValV>
    decreases i + 1,
{
    if i < 0 || i >= ls.len() {
        None
    } else {
        match scope_read(ls[i], k) {
            Some(v) => Some(v),
            None => locals_read_down(ls, k, i - 1),
        }
    }
}

/// The binding of `k` in the local scopes, innermost first.
pub open spec fn locals_read(ls: Seq<Seq<(Seq<char>, ValV)>>, k: Seq<char>) -> Option<ValV> {
    locals_read_down(ls, k, ls.len() - 1)
}

/// Overwrites `k` in the innermost local layer that binds it, searching
/// down from layer `i`.
pub open spec fn locals_write_down(
    ls: Seq<Seq<(Seq<char>, ValV)>>,
    k: Seq<char>,
    v: ValV,
    i: int,
) -> Seq<Seq<(Seq<char>, ValV)>>
    decreases i + 1,
{
    if i < 0 || i >= ls.len() {
        ls
    } else if scope_read(ls[i], k) is Some {
        ls.update(i, scope_write(ls[i], k, v))
    } else {
        locals_write_down(ls, k, v, i - 1)
    }
}

/// Reading a variable: local scopes innermost first, then the globals; a
/// name bound nowhere is created as an empty-text global.
pub open spec fn read_var_s(st: StV, k: Seq<char>) -> (StV, ValV) {
    match locals_read(st.locals, k) {
        Some(v) => (st, v),
        None => match scope_read(st.globals, k) {
            Some(v) => (st, v),
            None => (
                StV { globals: st.globals.push((k, ValV::VStr(Seq::empty()))), ..st },
                ValV::VStr(Seq::empty()),
            ),
        },
    }
}

/// Writing a variable: the innermost local layer that binds it, else the
/// globals (bound or not).
pub open spec fn write_var_s(st: StV, k: Seq<char>, v: ValV) -> StV {
    if locals_read(st.locals, k) is Some {
        StV { locals: locals_write_down(st.locals, k, v, st.locals.len() - 1), ..st }
    } else {
        StV { globals: scope_write(st.globals, k, v), ..st }
    }
}

/// A fresh, empty local layer.
pub open spec fn push_scope(st: StV) -> StV {
    StV { locals: st.locals.push(Seq::empty()), ..st }
}

/// Drops the innermost local layer.
pub open spec fn pop_scope(st: StV) -> StV {
    if st.locals.len() == 0 {
        st
    } else {
        StV { locals: st.locals.drop_last(), ..st }
    }
}

/// The text of field `i`: field zero is the whole record, fields past the
/// last are empty text.
pub open spec fn col_text(st: StV, i: u32) -> Seq<char> {
    if i == 0 {
        st.line
    } else if i <= st.cols.len() {
        st.cols[i as int - 1]
    } else {
        Seq::empty()
    }
}

/// One arithmetic operator on unit counts.
pub open spec fn arith_v(op: ArithOp, a: int, b: int) -> int {
    match op {
        ArithOp::Plus => fx_add(a, b),
        ArithOp::Minus => fx_sub(a, b),
        ArithOp::Times => fx_mul(a, b),
        ArithOp::Div => fx_div(a, b),
        ArithOp::Modulo => fx_rem(a, b),
    }
}

/// The definition a name calls: the latest definition wins.
pub open spec fn fd_lookup(fds: Seq<FunctionDefV>, name: Seq<char>) -> Option<FunctionDefV>
    decreases fds.len(),
{
    if fds.len() == 0 {
        None
    } else if fds.last().name == name {
        Some(fds.last())
    } else {
        fd_lookup(fds.drop_last(), name)
    }
}

/// Evaluates one expression.
pub open spec fn eval_exp_s(fds: Seq<FunctionDefV>, st: StV, e: ExprV, fuel: nat) -> ExpOut
    decreases fuel,
{
    if fuel == 0 {
        ExpOut { st, res: Err(RuntimeError::OutOfFuel) }
    } else {
        let f = (fuel - 1) as nat;
        match e {
            ExprV::StrE(s) => ExpOut { st, res: Ok(ValV::VStr(s)) },
            ExprV::NumE(n) => ExpOut { st, res: Ok(ValV::VNum(n)) },
            ExprV::ColE(i) => ExpOut { st, res: Ok(ValV::VStr(col_text(st, i))) },
            ExprV::VarE(k) => {
                let r = read_var_s(st, k);
                ExpOut { st: r.0, res: Ok(r.1) }
            },
            ExprV::RegexE(pat) => ExpOut {
                st,
                res: Ok(from_bool_v(ere_valid(pat) && ere_match(pat, st.line))),
            },
            ExprV::ArithE(op, a, b) => {
                let o1 = eval_exp_s(fds, st, *a, f);
                match o1.res {
                    Err(er) => ExpOut { st: o1.st, res: Err(er) },
                    Ok(v1) => {
                        let o2 = eval_exp_s(fds, o1.st, *b, f);
                        match o2.res {
                            Err(er) => ExpOut { st: o2.st, res: Err(er) },
                            Ok(v2) => ExpOut {
                                st: o2.st,
                                res: Ok(ValV::VNum(arith_v(op, to_num_v(v1), to_num_v(v2)))),
                            },
                        }
                    },
                }
            },
            ExprV::ConcatE(a, b) => {
                let o1 = eval_exp_s(fds, st, *a, f);
                match o1.res {
                    Err(er) => ExpOut { st: o1.st, res: Err(er) },
                    Ok(v1) => {
                        let o2 = eval_exp_s(fds, o1.st, *b, f);
                        match o2.res {
                            Err(er) => ExpOut { st: o2.st, res: Err(er) },
                            Ok(v2) => ExpOut { st: o2.st, res: Ok(concat_v(v1, v2)) },
                        }
                    },
                }
            },
            ExprV::CmpE(op, a, b) => {
                let o1 = eval_exp_s(fds, st, *a, f);
                match o1.res {
                    Err(er) => ExpOut { st: o1.st, res: Err(er) },
                    Ok(v1) => {
                        let o2 = eval_exp_s(fds, o1.st, *b, f);
                        match o2.res {
                            Err(er) => ExpOut { st: o2.st, res: Err(er) },
                            Ok(v2) => ExpOut { st: o2.st, res: Ok(from_bool_v(cmp_v(op, v1, v2))) },
                        }
                    },
                }
            },
            ExprV::AssignE(k, e1) => {
                let o1 = eval_exp_s(fds, st, *e1, f);
                match o1.res {
                    Err(er) => ExpOut { st: o1.st, res: Err(er) },
                    Ok(v) => ExpOut { st: write_var_s(o1.st, k, v), res: Ok(v) },
                }
            },
            ExprV::PlusAssignE(k, e1) => {
                let r = read_var_s(st, k);
                let o1 = eval_exp_s(fds, r.0, *e1, f);
                match o1.res {
                    Err(er) => ExpOut { st: o1.st, res: Err(er) },
                    Ok(v) => {
                        let n = fx_add(to_num_v(r.1), to_num_v(v));
                        ExpOut { st: write_var_s(o1.st, k, ValV::VNum(n)), res: Ok(ValV::VNum(n)) }
                    },
                }
            },
            ExprV::MatchE(neg, l, r) => {
                if *l is RegexE {
                    ExpOut {
                        st: StV { warns: st.warns.push(LEFT_REGEX_WARNING@), ..st },
                        res: Ok(from_bool_v(neg)),
                    }
                } else {
                    let o1 = eval_exp_s(fds, st, *l, f);
                    match o1.res {
                        Err(er) => ExpOut { st: o1.st, res: Err(er) },
                        Ok(v1) => match *r {
                            ExprV::RegexE(pat) => {
                                let b = ere_valid(pat) && ere_match(pat, to_text_v(v1));
                                ExpOut { st: o1.st, res: Ok(from_bool_v(b != neg)) }
                            },
                            _ => {
                                let o2 = eval_exp_s(fds, o1.st, *r, f);
                                match o2.res {
                                    Err(er) => ExpOut { st: o2.st, res: Err(er) },
                                    Ok(v2) => {
                                        let b = is_substring(to_text_v(v1), to_text_v(v2));
                                        ExpOut { st: o2.st, res: Ok(from_bool_v(b != neg)) }
                                    },
                                }
                            },
                        },
                    }
                }
            },
            ExprV::CallE(name, args) => {
                match fd_lookup(fds, name) {
                    None => ExpOut { st, res: Err(RuntimeError::UndefinedFunction) },
                    Some(fd) => {
                        let ao = eval_args_s(fds, st, args, fd.params, 0, Seq::empty(), f);
                        match ao.res {
                            Err(er) => ExpOut { st: ao.st, res: Err(er) },
                            Ok(scope) => {
                                let saved = ao.st.locals;
                                let entered = StV { locals: seq![scope], ..ao.st };
                                let bo = exec_block_s(fds, entered, fd.body, f);
                                let back = StV { locals: saved, ..bo.st };
                                match bo.res {
                                    Err(er) => ExpOut { st: back, res: Err(er) },
                                    Ok(Some(v)) => ExpOut { st: back, res: Ok(v) },
                                    Ok(None) => ExpOut { st: back, res: Ok(ValV::VNum(0)) },
                                }
                            },
                        }
                    },
                }
            },
            ExprV::OrE(_, _) => ExpOut { st, res: Err(RuntimeError::UnsupportedExpression) },
        }
    }
}

/// Evaluates a call's arguments in the caller's state, binding each to
/// the parameter of the same position.
pub open spec fn eval_args_s(
    fds: Seq<FunctionDefV>,
    st: StV,
    args: Seq<ExprV>,
    params: Seq<Seq<char>>,
    i: int,
    acc: Seq<(Seq<char>, ValV)>,
    fuel: nat,
) -> ValsOut
    decreases fuel,
{
    if fuel == 0 {
        ValsOut { st, res: Err(RuntimeError::OutOfFuel) }
    } else {
        let f = (fuel - 1) as nat;
        if i < 0 || i >= args.len() {
            ValsOut { st, res: Ok(acc) }
        } else if i >= params.len() {
            ValsOut { st, res: Err(RuntimeError::TooManyArguments) }
        } else {
            let o = eval_exp_s(fds, st, args[i], f);
            match o.res {
                Err(er) => ValsOut { st: o.st, res: Err(er) },
                Ok(v) => eval_args_s(fds, o.st, args, params, i + 1, scope_write(acc, params[i], v), f),
            }
        }
    }
}

/// Runs one statement.
pub open spec fn exec_stmt_s(fds: Seq<FunctionDefV>, st: StV, s: StmtV, fuel: nat) -> StmOut
    decreases fuel,
{
    if fuel == 0 {
        StmOut { st, res: Err(RuntimeError::OutOfFuel) }
    } else {
        let f = (fuel - 1) as nat;
        match s {
            StmtV::PrintS(e) => {
                let o = eval_exp_s(fds, st, *e, f);
                match o.res {
                    Err(er) => StmOut { st: o.st, res: Err(er) },
                    Ok(v) => StmOut {
                        st: StV { out: o.st.out.push(to_text_v(v)), ..o.st },
                        res: Ok(None),
                    },
                }
            },
            StmtV::ExprS(e) => {
                let o = eval_exp_s(fds, st, *e, f);
                match o.res {
                    Err(er) => StmOut { st: o.st, res: Err(er) },
                    Ok(_) => StmOut { st: o.st, res: Ok(None) },
                }
            },
            StmtV::BlockS(sts) => exec_block_s(fds, st, sts, f),
            StmtV::LocalS(k, init) => {
                let io: ExpOut = match init {
                    Some(e) => eval_exp_s(fds, st, *e, f),
                    None => ExpOut { st, res: Ok(ValV::VStr(Seq::empty())) },
                };
                match io.res {
                    Err(er) => StmOut { st: io.st, res: Err(er) },
                    Ok(v) => {
                        let st1 = io.st;
                        if st1.locals.len() == 0 {
                            StmOut { st: st1, res: Err(RuntimeError::NoScope) }
                        } else if scope_read(st1.locals.last(), k) is Some {
                            StmOut { st: st1, res: Err(RuntimeError::DuplicateLocal) }
                        } else {
                            StmOut {
                                st: StV {
                                    locals: st1.locals.update(
                                        st1.locals.len() - 1,
                                        st1.locals.last().push((k, v)),
                                    ),
                                    ..st1
                                },
                                res: Ok(None),
                            }
                        }
                    },
                }
            },
            StmtV::IfS(c, t, fo) => {
                let o = eval_exp_s(fds, st, *c, f);
                match o.res {
                    Err(er) => StmOut { st: o.st, res: Err(er) },
                    Ok(v) => {
                        let st1 = push_scope(o.st);
                        let ro: StmOut = if to_bool_v(v) {
                            exec_stmt_s(fds, st1, *t, f)
                        } else {
                            match fo {
                                Some(fs) => exec_stmt_s(fds, st1, *fs, f),
                                None => StmOut { st: st1, res: Ok(None) },
                            }
                        };
                        match ro.res {
                            Err(er) => StmOut { st: ro.st, res: Err(er) },
                            Ok(rv) => StmOut { st: pop_scope(ro.st), res: Ok(rv) },
                        }
                    },
                }
            },
            StmtV::WhileS(c, b) => while_s(fds, st, *c, *b, f),
            StmtV::ForS(init, cond, iter, body) => {
                let io: StmOut = match init {
                    None => StmOut { st, res: Ok(None) },
                    Some(InitV::InitExprV(e)) => {
                        let o = eval_exp_s(fds, st, *e, f);
                        match o.res {
                            Err(er) => StmOut { st: o.st, res: Err(er) },
                            Ok(_) => StmOut { st: o.st, res: Ok(None) },
                        }
                    },
                    Some(InitV::InitDeclV(d)) => exec_stmt_s(fds, push_scope(st), *d, f),
                };
                match io.res {
                    Err(er) => StmOut { st: io.st, res: Err(er) },
                    Ok(_) => {
                        let pushed = init matches Some(InitV::InitDeclV(_));
                        let lo = for_loop_s(fds, io.st, cond, iter, body, f);
                        match lo.res {
                            Err(er) => StmOut { st: lo.st, res: Err(er) },
                            Ok(Some(v)) => StmOut { st: lo.st, res: Ok(Some(v)) },
                            Ok(None) => StmOut {
                                st: if pushed {
                                    pop_scope(lo.st)
                                } else {
                                    lo.st
                                },
                                res: Ok(None),
                            },
                        }
                    },
                }
            },
            StmtV::ReturnS(e) => {
                let o = eval_exp_s(fds, st, *e, f);
                match o.res {
                    Err(er) => StmOut { st: o.st, res: Err(er) },
                    Ok(v) => StmOut { st: o.st, res: Ok(Some(v)) },
                }
            },
        }
    }
}

/// Runs a `while` loop.
pub open spec fn while_s(fds: Seq<FunctionDefV>, st: StV, c: ExprV, b: StmtV, fuel: nat) -> StmOut
    decreases fuel,
{
    if fuel == 0 {
        StmOut { st, res: Err(RuntimeError::OutOfFuel) }
    } else {
        let f = (fuel - 1) as nat;
        let o = eval_exp_s(fds, st, c, f);
        match o.res {
            Err(er) => StmOut { st: o.st, res: Err(er) },
            Ok(v) => {
                if !to_bool_v(v) {
                    StmOut { st: o.st, res: Ok(None) }
                } else {
                    let ro = exec_stmt_s(fds, push_scope(o.st), b, f);
                    match ro.res {
                        Err(er) => StmOut { st: ro.st, res: Err(er) },
                        Ok(Some(rv)) => StmOut { st: pop_scope(ro.st), res: Ok(Some(rv)) },
                        Ok(None) => while_s(fds, pop_scope(ro.st), c, b, f),
                    }
                }
            },
        }
    }
}

/// Runs the repeating part of a `for` loop: condition, body, iteration.
pub open spec fn for_loop_s(
    fds: Seq<FunctionDefV>,
    st: StV,
    cond: Option<Box<ExprV>>,
    iter: Option<Box<ExprV>>,
    body: Box<StmtV>,
    fuel: nat,
) -> StmOut
    decreases fuel,
{
    if fuel == 0 {
        StmOut { st, res: Err(RuntimeError::OutOfFuel) }
    } else {
        let f = (fuel - 1) as nat;
        let co: ExpOut = match cond {
            Some(c) => eval_exp_s(fds, st, *c, f),
            None => ExpOut { st, res: Ok(from_bool_v(true)) },
        };
        match co.res {
            Err(er) => StmOut { st: co.st, res: Err(er) },
            Ok(cv) => {
                if !to_bool_v(cv) {
                    StmOut { st: co.st, res: Ok(None) }
                } else {
                    let ro = exec_stmt_s(fds, push_scope(co.st), *body, f);
                    match ro.res {
                        Err(er) => StmOut { st: ro.st, res: Err(er) },
                        Ok(Some(rv)) => StmOut { st: pop_scope(ro.st), res: Ok(Some(rv)) },
                        Ok(None) => {
                            let st2 = pop_scope(ro.st);
                            let it: ExpOut = match iter {
                                Some(e) => eval_exp_s(fds, st2, *e, f),
                                None => ExpOut { st: st2, res: Ok(from_bool_v(true)) },
                            };
                            match it.res {
                                Err(er) => StmOut { st: it.st, res: Err(er) },
                                Ok(_) => for_loop_s(fds, it.st, cond, iter, body, f),
                            }
                        },
                    }
                }
            },
        }
    }
}

/// Runs a block: a fresh scope, its statements in order, and the scope
/// dropped again.  A `return` stops the remaining statements.
pub open spec fn exec_block_s(fds: Seq<FunctionDefV>, st: StV, sts: Seq<StmtV>, fuel: nat) -> StmOut
    decreases fuel,
{
    if fuel == 0 {
        StmOut { st, res: Err(RuntimeError::OutOfFuel) }
    } else {
        let f = (fuel - 1) as nat;
        let ro = stmts_run_s(fds, push_scope(st), sts, 0, f);
        match ro.res {
            Err(er) => StmOut { st: ro.st, res: Err(er) },
            Ok(rv) => StmOut { st: pop_scope(ro.st), res: Ok(rv) },
        }
    }
}

/// Runs the statements of a block from position `i` on.
pub open spec fn stmts_run_s(
    fds: Seq<FunctionDefV>,
    st: StV,
    sts: Seq<StmtV>,
    i: int,
    fuel: nat,
) -> StmOut
    decreases fuel,
{
    if fuel == 0 {
        StmOut { st, res: Err(RuntimeError::OutOfFuel) }
    } else {
        let f = (fuel - 1) as nat;
        if i < 0 || i >= sts.len() {
            StmOut { st, res: Ok(None) }
        } else {
            let ro = exec_stmt_s(fds, st, sts[i], f);
            match ro.res {
                Err(er) => StmOut { st: ro.st, res: Err(er) },
                Ok(Some(v)) => StmOut { st: ro.st, res: Ok(Some(v)) },
                Ok(None) => stmts_run_s(fds, ro.st, sts, i + 1, f),
            }
        }
    }
}

/// Runs one action block at the top level, where a propagating `return`
/// is a fault.
pub open spec fn action_s(fds: Seq<FunctionDefV>, st: StV, block: Option<Seq<StmtV>>) -> RunOut {
    match block {
        Some(sts) => {
            let bo = exec_block_s(fds, st, sts, EVAL_FUEL as nat);
            match bo.res {
                Err(er) => RunOut { st: bo.st, err: Some(er) },
                Ok(Some(_)) => RunOut { st: bo.st, err: Some(RuntimeError::ReturnOutsideFunction) },
                Ok(None) => RunOut { st: bo.st, err: None },
            }
        },
        None => RunOut { st: StV { out: st.out.push(st.line), ..st }, err: None },
    }
}

/// Runs every `BEGIN` rule from position `i` on; a `BEGIN` rule without
/// an action is a fault.
pub open spec fn begin_s(prog: ProgramV, st: StV, i: int) -> RunOut
    decreases prog.pattern_blocks.len() - i,
{
    if i < 0 || i >= prog.pattern_blocks.len() {
        RunOut { st, err: None }
    } else {
        let pb = prog.pattern_blocks[i];
        if pb.pattern == Some(PatternV::BeginP) {
            match pb.block {
                None => RunOut { st, err: Some(RuntimeError::MissingBeginAction) },
                Some(sts) => {
                    let a = action_s(prog.function_defs, st, Some(sts));
                    match a.err {
                        Some(er) => a,
                        None => begin_s(prog, a.st, i + 1),
                    }
                },
            }
        } else {
            begin_s(prog, st, i + 1)
        }
    }
}

/// Runs every `END` rule from position `i` on; an `END` rule without an
/// action is a fault.
pub open spec fn end_s(prog: ProgramV, st: StV, i: int) -> RunOut
    decreases prog.pattern_blocks.len() - i,
{
    if i < 0 || i >= prog.pattern_blocks.len() {
        RunOut { st, err: None }
    } else {
        let pb = prog.pattern_blocks[i];
        if pb.pattern == Some(PatternV::EndP) {
            match pb.block {
                None => RunOut { st, err: Some(RuntimeError::MissingEndAction) },
                Some(sts) => {
                    let a = action_s(prog.function_defs, st, Some(sts));
                    match a.err {
                        Some(er) => a,
                        None => end_s(prog, a.st, i + 1),
                    }
                },
            }
        } else {
            end_s(prog, st, i + 1)
        }
    }
}

/// Evaluates every non-`BEGIN`/`END` rule against the current record,
/// from position `i` on.
pub open spec fn blocks_s(prog: ProgramV, st: StV, i: int) -> RunOut
    decreases prog.pattern_blocks.len() - i,
{
    if i < 0 || i >= prog.pattern_blocks.len() {
        RunOut { st, err: None }
    } else {
        let pb = prog.pattern_blocks[i];
        match pb.pattern {
            Some(PatternV::BeginP) => blocks_s(prog, st, i + 1),
            Some(PatternV::EndP) => blocks_s(prog, st, i + 1),
            Some(PatternV::ExprP(e)) => {
                let o = eval_exp_s(prog.function_defs, st, *e, EVAL_FUEL as nat);
                match o.res {
                    Err(er) => RunOut { st: o.st, err: Some(er) },
                    Ok(v) => {
                        if !to_bool_v(v) {
                            blocks_s(prog, o.st, i + 1)
                        } else {
                            let a = action_s(prog.function_defs, o.st, pb.block);
                            match a.err {
                                Some(er) => a,
                                None => blocks_s(prog, a.st, i + 1),
                            }
                        }
                    },
                }
            },
            None => {
                let a = action_s(prog.function_defs, st, pb.block);
                match a.err {
                    Some(er) => a,
                    None => blocks_s(prog, a.st, i + 1),
                }
            },
        }
    }
}

/// Feeds every record from position `i` on: sets the record and its
/// fields, counts it in `NR`, and dispatches the rules.
pub open spec fn records_s(prog: ProgramV, st: StV, records: Seq<Seq<char>>, i: int) -> RunOut
    decreases records.len() - i,
{
    if i < 0 || i >= records.len() {
        RunOut { st, err: None }
    } else {
        let line = records[i];
        let st1 = StV { line, cols: split_fields(line), ..st };
        let st2 = write_var_s(st1, "NR"@, ValV::VNum(fx_clamp(10000 * (i + 1))));
        let ro = blocks_s(prog, st2, 0);
        match ro.err {
            Some(er) => ro,
            None => records_s(prog, ro.st, records, i + 1),
        }
    }
}

/// Runs a whole program: `BEGIN` rules, each record in order, `END`
/// rules.  A fault stops the run at once; what was printed stays.
pub open spec fn run_s(prog: ProgramV, records: Seq<Seq<char>>, st0: StV) -> RunOut {
    let b = begin_s(prog, st0, 0);
    match b.err {
        Some(_) => b,
        None => {
            let r = records_s(prog, b.st, records, 0);
            match r.err {
                Some(_) => r,
                None => end_s(prog, r.st, 0),
            }
        },
    }
}

} // verus!
