//! The tree-walking interpreter, proved to follow the big-step semantics.
//!
//! `Interpreter::run` parses a program, runs its `BEGIN` rules, feeds it
//! every record in order, and runs its `END` rules; the printed lines
//! collect in `out` and warnings in `warnings`.  Its contract says the
//! final state and outcome are exactly what `run_s` assigns to the
//! program's ghost model.

use vstd::prelude::*;
use crate::ast::{
    Id, Program, FunctionDef, Expression, Statement, InitClause, Block, ExprV, StmtV, ArithOp,
    fds_view,
    args_view, stmts_view, ids_view, lemma_args_view_index, lemma_stmts_view_index,
};
use crate::value::{Value, ValV, CmpOp, cmp_values, concat_values};
use crate::num::Fixed;
use crate::semantics::{
    StV, RuntimeError, scope_read, scope_read_from, scope_write, scope_write_from, locals_read,
    locals_read_down, locals_write_down, read_var_s, write_var_s, push_scope, pop_scope, col_text,
    fd_lookup, eval_exp_s, eval_args_s, exec_stmt_s, exec_block_s, stmts_run_s, while_s,
    for_loop_s, LEFT_REGEX_WARNING, action_s, begin_s, end_s, blocks_s,
    records_s, run_s, EVAL_FUEL,
};
use crate::ast::Pattern;
use crate::fields::{strs_view, split_fields, split_record};
use crate::parser::{parse, parse_spec};
use crate::num::clamp_i128;
use crate::strutil::{to_chars, contains_chars};
use crate::ere::{compile_ere, ere_is_match};
use crate::lexer::SyntaxError;
use vstd::string::StringExecFns;

verus! {

/// Ghost model of an expression outcome.
pub open spec fn res_view(r: Result<Value, RuntimeError>) -> Result<ValV, RuntimeError> {
    match r {
        Ok(v) => Ok(v@),
        Err(e) => Err(e),
    }
}

/// Ghost model of a statement outcome.
pub open spec fn opt_res_view(r: Result<Option<Value>, RuntimeError>) -> Result<
    Option<ValV>,
    RuntimeError,
> {
    match r {
        Ok(Some(v)) => Ok(Some(v@)),
        Ok(None) => Ok(None),
        Err(e) => Err(e),
    }
}

/// Ghost model of an optional expression.
pub open spec fn opt_box_view(oe: &Option<Expression>) -> Option<Box<ExprV>> {
    match oe {
        Some(e) => Some(Box::new(e.deep_view())),
        None => None,
    }
}

/// A fault that ends a run: the program did not parse, or it failed while
/// running.
#[derive(Debug, Clone, Copy, PartialEq, Eq, Structural)]
pub enum RunError {
    Syntax(SyntaxError),
    Runtime(RuntimeError),
}

/// Ghost model of one scope: its bindings in order.
pub open spec fn scope_v(v: Seq<(Id, Value)>) -> Seq<(Seq<char>, ValV)> {
    v.map_values(|p: (Id, Value)| (p.0.0@, p.1@))
}

/// Ghost model of the local scopes, innermost last.
pub open spec fn locals_v(v: Seq<Vec<(Id, Value)>>) -> Seq<Seq<(Seq<char>, ValV)>> {
    v.map_values(|sc: Vec<(Id, Value)>| scope_v(sc@))
}

/// The interpreter's state: the current record and its fields, the
/// global scope, the local scopes of the running call, the printed
/// lines, and the warnings.
pub struct Interpreter {
    pub curr_columns: Vec<String>,
    pub curr_line: String,
    pub global_vars: Vec<(Id, Value)>,
    pub local_vars: Vec<Vec<(Id, Value)>>,
    pub out: Vec<String>,
    pub warnings: Vec<String>,
}

impl Interpreter {
    /// Ghost model of this state.
    pub open spec fn st(&self) -> StV {
        StV {
            line: self.curr_line@,
            cols: strs_view(self.curr_columns@),
            globals: scope_v(self.global_vars@),
            locals: locals_v(self.local_vars@),
            out: strs_view(self.out@),
            warns: strs_view(self.warnings@),
        }
    }

    /// A fresh interpreter: no record, no variables, nothing printed.
    pub fn new() -> (r: Interpreter)
        ensures
            r.st() == (StV {
                line: Seq::<char>::empty(),
                cols: Seq::<Seq<char>>::empty(),
                globals: Seq::<(Seq<char>, ValV)>::empty(),
                locals: Seq::<Seq<(Seq<char>, ValV)>>::empty(),
                out: Seq::<Seq<char>>::empty(),
                warns: Seq::<Seq<char>>::empty(),
            }),
    {
        let r = Interpreter {
            curr_columns: Vec::new(),
            curr_line: String::new(),
            global_vars: Vec::new(),
            local_vars: Vec::new(),
            out: Vec::new(),
            warnings: Vec::new(),
        };
        proof {
            assert(r.st() =~~= StV {
                line: Seq::<char>::empty(),
                cols: Seq::<Seq<char>>::empty(),
                globals: Seq::<(Seq<char>, ValV)>::empty(),
                locals: Seq::<Seq<(Seq<char>, ValV)>>::empty(),
                out: Seq::<Seq<char>>::empty(),
                warns: Seq::<Seq<char>>::empty(),
            });
        }
        r
    }
}

/// The binding of a name in one scope, if any.
fn scope_get(sc: &Vec<(Id, Value)>, k: &Id) -> (r: Option<Value>)
    ensures
        match r {
            Some(v) => scope_read(scope_v(sc@), k.0@) == Some(v@),
            None => scope_read(scope_v(sc@), k.0@) is None,
        },
{
    let n = sc.len();
    let mut j: usize = 0;
    while j < n
        invariant
            n == sc@.len(),
            j <= n,
            scope_read_from(scope_v(sc@), k.0@, 0) == scope_read_from(scope_v(sc@), k.0@, j as int),
        decreases n - j,
    {
        let p = &sc[j];
        if p.0.0 == k.0 {
            assert(scope_v(sc@)[j as int].0 == k.0@);
            return Some(p.1.duplicate());
        }
        assert(scope_v(sc@)[j as int].0 != k.0@);
        j = j + 1;
    }
    None
}

/// Binds a name in one scope: overwrites its binding or appends one.
fn scope_set(sc: &mut Vec<(Id, Value)>, k: &Id, v: Value)
    ensures
        scope_v(final(sc)@) == scope_write(scope_v(old(sc)@), k.0@, v@),
{
    let ghost s0 = scope_v(old(sc)@);
    let n = sc.len();
    let mut j: usize = 0;
    while j < n
        invariant
            n == sc@.len(),
            j <= n,
            sc@ == old(sc)@,
            scope_write_from(s0, k.0@, v@, 0) == scope_write_from(s0, k.0@, v@, j as int),
            s0 == scope_v(sc@),
        decreases n - j,
    {
        let eqname = sc[j].0.0 == k.0;
        if eqname {
            assert(s0[j as int].0 == k.0@);
            let ghost vg = v@;
            let kd = k.duplicate();
            let ghost entry_v = (k.0@, v@);
            sc.remove(j);
            sc.insert(j, (kd, v));
            proof {
                assert(sc@ =~= old(sc)@.update(j as int, sc@[j as int]));
                assert(scope_v(sc@) =~= s0.update(j as int, entry_v));
                assert(scope_write_from(s0, k.0@, v@, j as int) == s0.update(j as int, entry_v));
            }
            return ;
        }
        assert(s0[j as int].0 != k.0@);
        j = j + 1;
    }
    let ghost entry_v = (k.0@, v@);
    sc.push((k.duplicate(), v));
    proof {
        assert(scope_v(sc@) =~= s0.push(entry_v));
        assert(scope_write_from(s0, k.0@, v@, n as int) == s0.push(entry_v));
    }
}

/// The binding of a name among the local scopes, innermost first.
fn locals_get(ls: &Vec<Vec<(Id, Value)>>, k: &Id) -> (r: Option<Value>)
    ensures
        match r {
            Some(v) => locals_read(locals_v(ls@), k.0@) == Some(v@),
            None => locals_read(locals_v(ls@), k.0@) is None,
        },
{
    let ghost lv = locals_v(ls@);
    let mut i = ls.len();
    assert(locals_read(lv, k.0@) == locals_read_down(lv, k.0@, i as int - 1));
    while i > 0
        invariant
            i <= ls@.len(),
            lv == locals_v(ls@),
            locals_read(lv, k.0@) == locals_read_down(lv, k.0@, i as int - 1),
        decreases i,
    {
        let j = i - 1;
        assert(lv[j as int] == scope_v(ls@[j as int]@));
        match scope_get(&ls[j], k) {
            Some(v) => {
                return Some(v);
            },
            None => {
                i = j;
            },
        }
    }
    None
}

impl Interpreter {
    /// Reads a variable: local scopes innermost first, then globals; a
    /// name bound nowhere is created as an empty-text global.
    fn read_var(&mut self, k: &Id) -> (r: Value)
        ensures
            final(self).st() == read_var_s(old(self).st(), k.0@).0,
            r@ == read_var_s(old(self).st(), k.0@).1,
    {
        match locals_get(&self.local_vars, k) {
            Some(v) => v,
            None => match scope_get(&self.global_vars, k) {
                Some(v) => v,
                None => {
                    let ghost g0 = scope_v(self.global_vars@);
                    self.global_vars.push((k.duplicate(), Value::empty_text()));
                    proof {
                        assert(scope_v(self.global_vars@) =~= g0.push(
                            (k.0@, ValV::VStr(Seq::empty())),
                        ));
                        assert(final(self).st() =~~= read_var_s(old(self).st(), k.0@).0);
                    }
                    Value::empty_text()
                },
            },
        }
    }

    /// Writes a variable: the innermost local layer that binds it, else
    /// the globals.
    fn write_var(&mut self, k: &Id, v: Value)
        ensures
            final(self).st() == write_var_s(old(self).st(), k.0@, v@),
    {
        let ghost lv = locals_v(self.local_vars@);
        let n = self.local_vars.len();
        let mut i = n;
        assert(locals_read(lv, k.0@) == locals_read_down(lv, k.0@, i as int - 1));
        assert(locals_write_down(lv, k.0@, v@, n as int - 1) == locals_write_down(
            lv,
            k.0@,
            v@,
            i as int - 1,
        ));
        while i > 0
            invariant
                n == self.local_vars@.len(),
                i <= n,
                self == old(self),
                lv == locals_v(self.local_vars@),
                locals_read(lv, k.0@) == locals_read_down(lv, k.0@, i as int - 1),
                locals_write_down(lv, k.0@, v@, n as int - 1) == locals_write_down(
                    lv,
                    k.0@,
                    v@,
                    i as int - 1,
                ),
            decreases i,
        {
            let j = i - 1;
            assert(lv[j as int] == scope_v(self.local_vars@[j as int]@));
            match scope_get(&self.local_vars[j], k) {
                Some(_present) => {
                    let mut layer = self.local_vars.remove(j);
                    let ghost layer0 = scope_v(layer@);
                    scope_set(&mut layer, k, v);
                    self.local_vars.insert(j, layer);
                    proof {
                        assert(self.local_vars@ =~= old(self).local_vars@.update(
                            j as int,
                            self.local_vars@[j as int],
                        ));
                        assert(locals_v(self.local_vars@) =~= lv.update(
                            j as int,
                            scope_write(lv[j as int], k.0@, v@),
                        ));
                        assert(locals_write_down(lv, k.0@, v@, j as int) == lv.update(
                            j as int,
                            scope_write(lv[j as int], k.0@, v@),
                        ));
                        assert(locals_read(lv, k.0@) is Some);
                        assert(final(self).st() =~~= write_var_s(old(self).st(), k.0@, v@));
                    }
                    return ;
                },
                None => {
                    i = j;
                },
            }
        }
        assert(locals_read(lv, k.0@) is None);
        let ghost g0 = scope_v(self.global_vars@);
        scope_set(&mut self.global_vars, k, v);
        proof {
            assert(final(self).st() =~~= write_var_s(old(self).st(), k.0@, v@));
        }
    }

    /// Opens a fresh, empty local layer.
    fn enter_scope(&mut self)
        ensures
            final(self).st() == push_scope(old(self).st()),
    {
        self.local_vars.push(Vec::new());
        proof {
            assert(locals_v(self.local_vars@) =~~= locals_v(old(self).local_vars@).push(
                Seq::empty(),
            ));
            assert(final(self).st() =~~= push_scope(old(self).st()));
        }
    }

    /// Drops the innermost local layer.
    fn leave_scope(&mut self)
        ensures
            final(self).st() == pop_scope(old(self).st()),
    {
        if self.local_vars.len() > 0 {
            self.local_vars.pop();
            proof {
                assert(locals_v(self.local_vars@) =~= locals_v(old(self).local_vars@).drop_last());
                assert(final(self).st() =~~= pop_scope(old(self).st()));
            }
        } else {
            proof {
                assert(final(self).st() =~~= pop_scope(old(self).st()));
            }
        }
    }

    /// The text of one field: field zero is the whole record, fields past
    /// the last are empty.
    fn col_value(&self, n: u32) -> (r: String)
        ensures
            r@ == col_text(self.st(), n),
    {
        if n == 0 {
            self.curr_line.clone()
        } else if n as usize <= self.curr_columns.len() {
            self.curr_columns[n as usize - 1].clone()
        } else {
            String::new()
        }
    }
}

/// The definition a name calls: the latest definition wins.
fn fd_find(fds: &Vec<FunctionDef>, name: &Id) -> (r: Option<usize>)
    ensures
        match r {
            Some(j) => j < fds@.len() && fd_lookup(fds_view(fds@), name.0@) == Some(
                fds@[j as int].deep_view(),
            ),
            None => fd_lookup(fds_view(fds@), name.0@) is None,
        },
{
    let ghost fv = fds_view(fds@);
    let mut i = fds.len();
    assert(fv.subrange(0, i as int) =~= fv);
    while i > 0
        invariant
            i <= fds@.len(),
            fv == fds_view(fds@),
            fd_lookup(fv, name.0@) == fd_lookup(fv.subrange(0, i as int), name.0@),
        decreases i,
    {
        let j = i - 1;
        let ghost pre = fv.subrange(0, i as int);
        assert(pre.last() == fv[j as int]);
        assert(fv[j as int] == fds@[j as int].deep_view());
        if fds[j].name.0 == name.0 {
            assert(fd_lookup(pre, name.0@) == Some(fds@[j as int].deep_view()));
            return Some(j);
        }
        proof {
            assert(pre.drop_last() =~= fv.subrange(0, j as int));
        }
        i = j;
    }
    assert(fv.subrange(0, 0) =~= Seq::<crate::ast::FunctionDefV>::empty());
    None
}

/// Ghost model of an optional action block.
pub open spec fn opt_block_view(b: &Option<Block>) -> Option<Seq<StmtV>> {
    match b {
        Some(bl) => Some(bl.deep_view()),
        None => None,
    }
}

impl Interpreter {
    /// Runs one rule's action at the top level: its block if it has one,
    /// else printing the whole record.
    fn run_action(&mut self, prog: &Program, block: &Option<Block>) -> (r: Option<RuntimeError>)
        ensures
            ({
                let o = action_s(
                    prog.deep_view().function_defs,
                    old(self).st(),
                    opt_block_view(block),
                );
                final(self).st() == o.st && r == o.err
            }),
    {
        match block {
            Some(b) => {
                let bo = self.exec_block(&prog.function_defs, b, EVAL_FUEL);
                match bo {
                    Err(er) => Some(er),
                    Ok(Some(_)) => Some(RuntimeError::ReturnOutsideFunction),
                    Ok(None) => None,
                }
            },
            None => {
                let ghost s0 = self.st();
                let line = self.curr_line.clone();
                self.out.push(line);
                proof {
                    assert(self.st() =~~= (StV { out: s0.out.push(s0.line), ..s0 }));
                }
                None
            },
        }
    }

    /// Runs every `BEGIN` rule from position `i` on.
    fn run_begin(&mut self, prog: &Program, i: usize) -> (r: Option<RuntimeError>)
        requires
            i <= prog.pattern_blocks@.len(),
        ensures
            ({
                let o = begin_s(prog.deep_view(), old(self).st(), i as int);
                final(self).st() == o.st && r == o.err
            }),
        decreases prog.pattern_blocks@.len() - i,
    {
        if i >= prog.pattern_blocks.len() {
            return None;
        }
        let pb = &prog.pattern_blocks[i];
        match &pb.pattern {
            Some(Pattern::Begin) => match &pb.block {
                None => Some(RuntimeError::MissingBeginAction),
                Some(_) => {
                    match self.run_action(prog, &pb.block) {
                        Some(er) => Some(er),
                        None => self.run_begin(prog, i + 1),
                    }
                },
            },
            _ => self.run_begin(prog, i + 1),
        }
    }

    /// Runs every `END` rule from position `i` on.
    fn run_end(&mut self, prog: &Program, i: usize) -> (r: Option<RuntimeError>)
        requires
            i <= prog.pattern_blocks@.len(),
        ensures
            ({
                let o = end_s(prog.deep_view(), old(self).st(), i as int);
                final(self).st() == o.st && r == o.err
            }),
        decreases prog.pattern_blocks@.len() - i,
    {
        if i >= prog.pattern_blocks.len() {
            return None;
        }
        let pb = &prog.pattern_blocks[i];
        match &pb.pattern {
            Some(Pattern::End) => match &pb.block {
                None => Some(RuntimeError::MissingEndAction),
                Some(_) => {
                    match self.run_action(prog, &pb.block) {
                        Some(er) => Some(er),
                        None => self.run_end(prog, i + 1),
                    }
                },
            },
            _ => self.run_end(prog, i + 1),
        }
    }

    /// Evaluates every non-`BEGIN`/`END` rule against the current record,
    /// from position `i` on.
    fn run_blocks(&mut self, prog: &Program, i: usize) -> (r: Option<RuntimeError>)
        requires
            i <= prog.pattern_blocks@.len(),
        ensures
            ({
                let o = blocks_s(prog.deep_view(), old(self).st(), i as int);
                final(self).st() == o.st && r == o.err
            }),
        decreases prog.pattern_blocks@.len() - i,
    {
        if i >= prog.pattern_blocks.len() {
            return None;
        }
        let pb = &prog.pattern_blocks[i];
        match &pb.pattern {
            Some(Pattern::Begin) => self.run_blocks(prog, i + 1),
            Some(Pattern::End) => self.run_blocks(prog, i + 1),
            Some(Pattern::Expression(e)) => {
                let v = match self.eval_exp(&prog.function_defs, e, EVAL_FUEL) {
                    Ok(v) => v,
                    Err(er) => {
                        return Some(er);
                    },
                };
                if !v.to_bool() {
                    return self.run_blocks(prog, i + 1);
                }
                match self.run_action(prog, &pb.block) {
                    Some(er) => Some(er),
                    None => self.run_blocks(prog, i + 1),
                }
            },
            None => {
                match self.run_action(prog, &pb.block) {
                    Some(er) => Some(er),
                    None => self.run_blocks(prog, i + 1),
                }
            },
        }
    }

    /// Feeds every record from position `i` on: sets the record and its
    /// fields, counts it in `NR`, and dispatches the rules.
    fn run_records(&mut self, prog: &Program, records: &Vec<String>, i: usize) -> (r: Option<
        RuntimeError,
    >)
        requires
            i <= records@.len(),
        ensures
            ({
                let o = records_s(prog.deep_view(), old(self).st(), strs_view(records@), i as int);
                final(self).st() == o.st && r == o.err
            }),
        decreases records@.len() - i,
    {
        if i >= records.len() {
            return None;
        }
        let ghost s0 = self.st();
        self.curr_line = records[i].clone();
        let chars = to_chars(self.curr_line.as_str());
        self.curr_columns = split_record(&chars);
        proof {
            assert(self.st() =~~= (StV {
                line: strs_view(records@)[i as int],
                cols: split_fields(strs_view(records@)[i as int]),
                ..s0
            }));
        }
        let units = clamp_i128((i as i128 + 1) * 10000);
        let nr = Id(String::from_str("NR"));
        self.write_var(&nr, Value::Num(Fixed { units }));
        match self.run_blocks(prog, 0) {
            Some(er) => Some(er),
            None => self.run_records(prog, records, i + 1),
        }
    }

    /// Parses a program and runs it against the records, in order: the
    /// `BEGIN` rules once, every record, then the `END` rules.  What the
    /// program prints collects in `out` and its warnings in `warnings`;
    /// a fault stops the run at once and what was printed stays.
    pub fn run(&mut self, program_str: &str, records: &Vec<String>) -> (r: Result<(), RunError>)
        ensures
            match parse_spec(program_str@) {
                Err(pos) => final(self).st() == old(self).st() && (r matches Err(
                    RunError::Syntax(se),
                ) && se.pos as int == pos),
                Ok(progv) => ({
                    let o = run_s(progv, strs_view(records@), old(self).st());
                    final(self).st() == o.st && (match o.err {
                        None => r is Ok,
                        Some(er) => r == Err::<(), RunError>(RunError::Runtime(er)),
                    })
                }),
            },
    {
        let prog = match parse(program_str) {
            Ok(p) => p,
            Err(e) => {
                return Err(RunError::Syntax(e));
            },
        };
        match self.run_begin(&prog, 0) {
            Some(er) => {
                return Err(RunError::Runtime(er));
            },
            None => {},
        }
        match self.run_records(&prog, records, 0) {
            Some(er) => {
                return Err(RunError::Runtime(er));
            },
            None => {},
        }
        match self.run_end(&prog, 0) {
            Some(er) => Err(RunError::Runtime(er)),
            None => Ok(()),
        }
    }
}

impl Interpreter {
    /// Evaluates one expression, following `eval_exp_s`.
    #[verifier::rlimit(100)]
    #[verifier::spinoff_prover]
    fn eval_exp(&mut self, fds: &Vec<FunctionDef>, e: &Expression, fuel: u64) -> (r: Result<
        Value,
        RuntimeError,
    >)
        ensures
            ({
                let o = eval_exp_s(fds_view(fds@), old(self).st(), e.deep_view(), fuel as nat);
                final(self).st() == o.st && res_view(r) == o.res
            }),
        decreases fuel, 2int,
    {
        if fuel == 0 {
            return Err(RuntimeError::OutOfFuel);
        }
        match e {
            Expression::Str { .. } => self.eval_leaf(fds, e, fuel),
            Expression::Num(_) => self.eval_leaf(fds, e, fuel),
            Expression::ColumnNumber(_) => self.eval_leaf(fds, e, fuel),
            Expression::VarLookup(_) => self.eval_leaf(fds, e, fuel),
            Expression::Regex { .. } => self.eval_leaf(fds, e, fuel),
            Expression::LogicalOr(_, _) => self.eval_leaf(fds, e, fuel),
            Expression::Plus(_, _) => self.eval_arith_node(fds, e, fuel),
            Expression::Minus(_, _) => self.eval_arith_node(fds, e, fuel),
            Expression::Times(_, _) => self.eval_arith_node(fds, e, fuel),
            Expression::Div(_, _) => self.eval_arith_node(fds, e, fuel),
            Expression::Modulo(_, _) => self.eval_arith_node(fds, e, fuel),
            Expression::LessThan(_, _) => self.eval_cmp_node(fds, e, fuel),
            Expression::LessEqual(_, _) => self.eval_cmp_node(fds, e, fuel),
            Expression::NotEqual(_, _) => self.eval_cmp_node(fds, e, fuel),
            Expression::Equals(_, _) => self.eval_cmp_node2(fds, e, fuel),
            Expression::GreaterThan(_, _) => self.eval_cmp_node2(fds, e, fuel),
            Expression::GreaterEqual(_, _) => self.eval_cmp_node2(fds, e, fuel),
            Expression::Concatenate(_, _) => self.eval_text_node(fds, e, fuel),
            Expression::Assign(_, _) => self.eval_text_node(fds, e, fuel),
            Expression::PlusAssign(_, _) => self.eval_text_node(fds, e, fuel),
            Expression::RegexMatch(_, _) => self.eval_match_node(fds, e, fuel),
            Expression::RegexNotMatch(_, _) => self.eval_match_node(fds, e, fuel),
            Expression::FunctionCall { .. } => self.eval_match_node(fds, e, fuel),
        }
    }

    /// Evaluates a leaf expression: a literal, a field, a variable, a
    /// regex pattern, or the unsupported or-branch.
    #[verifier::rlimit(100)]
    #[verifier::spinoff_prover]
    fn eval_leaf(&mut self, fds: &Vec<FunctionDef>, e: &Expression, fuel: u64) -> (r: Result<
        Value,
        RuntimeError,
    >)
        requires
            fuel > 0,
            (e matches Expression::Str { .. } || e matches Expression::Num(_)
                || e matches Expression::ColumnNumber(_) || e matches Expression::VarLookup(_)
                || e matches Expression::Regex { .. } || e matches Expression::LogicalOr(_, _)),
        ensures
            ({
                let o = eval_exp_s(fds_view(fds@), old(self).st(), e.deep_view(), fuel as nat);
                final(self).st() == o.st && res_view(r) == o.res
            }),
        decreases fuel, 1int,
    {
        match e {
            Expression::Str { value } => Ok(Value::Str(value.clone())),
            Expression::Num(fx) => Ok(Value::Num(*fx)),
            Expression::ColumnNumber(n) => Ok(Value::Str(self.col_value(*n))),
            Expression::VarLookup(id) => Ok(self.read_var(id)),
            Expression::Regex { source } => Ok(self.regex_exp(source)),
            Expression::LogicalOr(_, _) => Err(RuntimeError::UnsupportedExpression),
            _ => {
                proof {
                    assert(false);
                }
                Err(RuntimeError::OutOfFuel)
            },
        }
    }

    /// Evaluates an arithmetic node.
    #[verifier::rlimit(100)]
    #[verifier::spinoff_prover]
    fn eval_arith_node(&mut self, fds: &Vec<FunctionDef>, e: &Expression, fuel: u64) -> (r: Result<
        Value,
        RuntimeError,
    >)
        requires
            fuel > 0,
            (e matches Expression::Plus(_, _) || e matches Expression::Minus(_, _)
                || e matches Expression::Times(_, _) || e matches Expression::Div(_, _)
                || e matches Expression::Modulo(_, _)),
        ensures
            ({
                let o = eval_exp_s(fds_view(fds@), old(self).st(), e.deep_view(), fuel as nat);
                final(self).st() == o.st && res_view(r) == o.res
            }),
        decreases fuel, 1int,
    {
        let f = fuel - 1;
        match e {
            Expression::Plus(a, b) => self.arith_exp(fds, ArithOp::Plus, a, b, f),
            Expression::Minus(a, b) => self.arith_exp(fds, ArithOp::Minus, a, b, f),
            Expression::Times(a, b) => self.arith_exp(fds, ArithOp::Times, a, b, f),
            Expression::Div(a, b) => self.arith_exp(fds, ArithOp::Div, a, b, f),
            Expression::Modulo(a, b) => self.arith_exp(fds, ArithOp::Modulo, a, b, f),
            _ => {
                proof {
                    assert(false);
                }
                Err(RuntimeError::OutOfFuel)
            },
        }
    }

    /// Evaluates an ordering-comparison node.
    #[verifier::rlimit(100)]
    #[verifier::spinoff_prover]
    fn eval_cmp_node(&mut self, fds: &Vec<FunctionDef>, e: &Expression, fuel: u64) -> (r: Result<
        Value,
        RuntimeError,
    >)
        requires
            fuel > 0,
            (e matches Expression::LessThan(_, _) || e matches Expression::LessEqual(_, _)
                || e matches Expression::NotEqual(_, _)),
        ensures
            ({
                let o = eval_exp_s(fds_view(fds@), old(self).st(), e.deep_view(), fuel as nat);
                final(self).st() == o.st && res_view(r) == o.res
            }),
        decreases fuel, 1int,
    {
        let f = fuel - 1;
        match e {
            Expression::LessThan(a, b) => self.cmp_exp(fds, CmpOp::Lt, a, b, f),
            Expression::LessEqual(a, b) => self.cmp_exp(fds, CmpOp::Le, a, b, f),
            Expression::NotEqual(a, b) => self.cmp_exp(fds, CmpOp::Ne, a, b, f),
            _ => {
                proof {
                    assert(false);
                }
                Err(RuntimeError::OutOfFuel)
            },
        }
    }

    /// Evaluates an equality-or-greater-comparison node.
    #[verifier::rlimit(100)]
    #[verifier::spinoff_prover]
    fn eval_cmp_node2(&mut self, fds: &Vec<FunctionDef>, e: &Expression, fuel: u64) -> (r: Result<
        Value,
        RuntimeError,
    >)
        requires
            fuel > 0,
            (e matches Expression::Equals(_, _) || e matches Expression::GreaterThan(_, _)
                || e matches Expression::GreaterEqual(_, _)),
        ensures
            ({
                let o = eval_exp_s(fds_view(fds@), old(self).st(), e.deep_view(), fuel as nat);
                final(self).st() == o.st && res_view(r) == o.res
            }),
        decreases fuel, 1int,
    {
        let f = fuel - 1;
        match e {
            Expression::Equals(a, b) => self.cmp_exp(fds, CmpOp::EqEq, a, b, f),
            Expression::GreaterThan(a, b) => self.cmp_exp(fds, CmpOp::Gt, a, b, f),
            Expression::GreaterEqual(a, b) => self.cmp_exp(fds, CmpOp::Ge, a, b, f),
            _ => {
                proof {
                    assert(false);
                }
                Err(RuntimeError::OutOfFuel)
            },
        }
    }

    /// Evaluates a concatenation or an assignment node.
    #[verifier::rlimit(100)]
    #[verifier::spinoff_prover]
    fn eval_text_node(&mut self, fds: &Vec<FunctionDef>, e: &Expression, fuel: u64) -> (r: Result<
        Value,
        RuntimeError,
    >)
        requires
            fuel > 0,
            (e matches Expression::Concatenate(_, _) || e matches Expression::Assign(_, _)
                || e matches Expression::PlusAssign(_, _)),
        ensures
            ({
                let o = eval_exp_s(fds_view(fds@), old(self).st(), e.deep_view(), fuel as nat);
                final(self).st() == o.st && res_view(r) == o.res
            }),
        decreases fuel, 1int,
    {
        let f = fuel - 1;
        match e {
            Expression::Concatenate(a, b) => self.concat_exp(fds, a, b, f),
            Expression::Assign(id, rhs) => self.assign_exp(fds, id, rhs, f),
            Expression::PlusAssign(id, rhs) => self.plus_assign_exp(fds, id, rhs, f),
            _ => {
                proof {
                    assert(false);
                }
                Err(RuntimeError::OutOfFuel)
            },
        }
    }

    /// Evaluates a match-operator or function-call node.
    #[verifier::rlimit(100)]
    #[verifier::spinoff_prover]
    fn eval_match_node(&mut self, fds: &Vec<FunctionDef>, e: &Expression, fuel: u64) -> (r: Result<
        Value,
        RuntimeError,
    >)
        requires
            fuel > 0,
            (e matches Expression::RegexMatch(_, _) || e matches Expression::RegexNotMatch(_, _)
                || e matches Expression::FunctionCall { .. }),
        ensures
            ({
                let o = eval_exp_s(fds_view(fds@), old(self).st(), e.deep_view(), fuel as nat);
                final(self).st() == o.st && res_view(r) == o.res
            }),
        decreases fuel, 1int,
    {
        let f = fuel - 1;
        match e {
            Expression::RegexMatch(l, rr) => self.match_exp(fds, l, rr, false, f),
            Expression::RegexNotMatch(l, rr) => self.match_exp(fds, l, rr, true, f),
            Expression::FunctionCall { name, arguments } => {
                self.call_exp(fds, name, arguments, f)
            },
            _ => {
                proof {
                    assert(false);
                }
                Err(RuntimeError::OutOfFuel)
            },
        }
    }

    /// Evaluates one function call.
    #[verifier::rlimit(100)]
    #[verifier::spinoff_prover]
    fn call_exp(
        &mut self,
        fds: &Vec<FunctionDef>,
        name: &Id,
        arguments: &Vec<Box<Expression>>,
        f: u64,
    ) -> (r: Result<Value, RuntimeError>)
        ensures
            ({
                let o = eval_exp_s(
                    fds_view(fds@),
                    old(self).st(),
                    ExprV::CallE(name.0@, args_view(arguments, 0)),
                    (f + 1) as nat,
                );
                final(self).st() == o.st && res_view(r) == o.res
            }),
        decreases f, 3int,
    {
        {
            {
                match fd_find(fds, name) {
                    None => Err(RuntimeError::UndefinedFunction),
                    Some(j) => {
                        let scope0: Vec<(Id, Value)> = Vec::new();
                        proof {
                            assert(scope_v(scope0@) =~= Seq::<(Seq<char>, ValV)>::empty());
                        }
                        let scope = match self.eval_args(
                            fds,
                            arguments,
                            &fds[j].parameters,
                            0,
                            scope0,
                            f,
                        ) {
                            Ok(sc) => sc,
                            Err(er) => {
                                return Err(er);
                            },
                        };
                        let ghost sc_v = scope_v(scope@);
                        let mut fresh: Vec<Vec<(Id, Value)>> = Vec::new();
                        fresh.push(scope);
                        core::mem::swap(&mut fresh, &mut self.local_vars);
                        proof {
                            assert(locals_v(self.local_vars@) =~= seq![sc_v]);
                        }
                        let bo = self.exec_block(fds, &fds[j].body, f);
                        core::mem::swap(&mut fresh, &mut self.local_vars);
                        match bo {
                            Err(er) => Err(er),
                            Ok(Some(v)) => Ok(v),
                            Ok(None) => Ok(Value::Num(Fixed { units: 0 })),
                        }
                    },
                }
            }
        }
    }

    /// Evaluates one regex-literal expression against the current record.
    fn regex_exp(&self, source: &String) -> (r: Value)
        ensures
            r@ == crate::value::from_bool_v(crate::ere::ere_valid(source@) && crate::ere::ere_match(
                source@,
                self.st().line,
            )),
    {
        match compile_ere(source.as_str()) {
            Some(re) => {
                let b = ere_is_match(&re, self.curr_line.as_str());
                Value::from_bool(b)
            },
            None => Value::from_bool(false),
        }
    }

    /// Evaluates one concatenation expression.
    fn concat_exp(
        &mut self,
        fds: &Vec<FunctionDef>,
        a: &Expression,
        b: &Expression,
        f: u64,
    ) -> (r: Result<Value, RuntimeError>)
        ensures
            ({
                let o1 = eval_exp_s(fds_view(fds@), old(self).st(), a.deep_view(), f as nat);
                match o1.res {
                    Err(er) => final(self).st() == o1.st && r == Err::<Value, RuntimeError>(er),
                    Ok(v1) => {
                        let o2 = eval_exp_s(fds_view(fds@), o1.st, b.deep_view(), f as nat);
                        match o2.res {
                            Err(er) => final(self).st() == o2.st && r == Err::<
                                Value,
                                RuntimeError,
                            >(er),
                            Ok(v2) => final(self).st() == o2.st && res_view(r) == Ok::<
                                ValV,
                                RuntimeError,
                            >(crate::value::concat_v(v1, v2)),
                        }
                    },
                }
            }),
        decreases f, 3int,
    {
        let v1 = match self.eval_exp(fds, a, f) {
            Ok(v) => v,
            Err(er) => {
                return Err(er);
            },
        };
        let v2 = match self.eval_exp(fds, b, f) {
            Ok(v) => v,
            Err(er) => {
                return Err(er);
            },
        };
        Ok(concat_values(&v1, &v2))
    }

    /// Evaluates one assignment expression.
    fn assign_exp(
        &mut self,
        fds: &Vec<FunctionDef>,
        id: &Id,
        rhs: &Expression,
        f: u64,
    ) -> (r: Result<Value, RuntimeError>)
        ensures
            ({
                let o1 = eval_exp_s(fds_view(fds@), old(self).st(), rhs.deep_view(), f as nat);
                match o1.res {
                    Err(er) => final(self).st() == o1.st && r == Err::<Value, RuntimeError>(er),
                    Ok(v) => final(self).st() == write_var_s(o1.st, id.0@, v) && res_view(r)
                        == Ok::<ValV, RuntimeError>(v),
                }
            }),
        decreases f, 3int,
    {
        let v = match self.eval_exp(fds, rhs, f) {
            Ok(v) => v,
            Err(er) => {
                return Err(er);
            },
        };
        self.write_var(id, v.duplicate());
        Ok(v)
    }

    /// Evaluates one increment-assignment expression.
    fn plus_assign_exp(
        &mut self,
        fds: &Vec<FunctionDef>,
        id: &Id,
        rhs: &Expression,
        f: u64,
    ) -> (r: Result<Value, RuntimeError>)
        ensures
            ({
                let rd = read_var_s(old(self).st(), id.0@);
                let o1 = eval_exp_s(fds_view(fds@), rd.0, rhs.deep_view(), f as nat);
                match o1.res {
                    Err(er) => final(self).st() == o1.st && r == Err::<Value, RuntimeError>(er),
                    Ok(v) => ({
                        let n = crate::num::fx_add(
                            crate::value::to_num_v(rd.1),
                            crate::value::to_num_v(v),
                        );
                        final(self).st() == write_var_s(o1.st, id.0@, ValV::VNum(n)) && res_view(r)
                            == Ok::<ValV, RuntimeError>(ValV::VNum(n))
                    }),
                }
            }),
        decreases f, 3int,
    {
        let cur = self.read_var(id);
        let v = match self.eval_exp(fds, rhs, f) {
            Ok(v) => v,
            Err(er) => {
                return Err(er);
            },
        };
        let n = cur.to_num().plus(v.to_num());
        self.write_var(id, Value::Num(n));
        Ok(Value::Num(n))
    }

    /// Evaluates one arithmetic expression.
    fn arith_exp(
        &mut self,
        fds: &Vec<FunctionDef>,
        op: ArithOp,
        a: &Expression,
        b: &Expression,
        f: u64,
    ) -> (r: Result<Value, RuntimeError>)
        ensures
            ({
                let o1 = eval_exp_s(fds_view(fds@), old(self).st(), a.deep_view(), f as nat);
                match o1.res {
                    Err(er) => final(self).st() == o1.st && r == Err::<Value, RuntimeError>(er),
                    Ok(v1) => {
                        let o2 = eval_exp_s(fds_view(fds@), o1.st, b.deep_view(), f as nat);
                        match o2.res {
                            Err(er) => final(self).st() == o2.st && r == Err::<
                                Value,
                                RuntimeError,
                            >(er),
                            Ok(v2) => final(self).st() == o2.st && res_view(r) == Ok::<
                                ValV,
                                RuntimeError,
                            >(ValV::VNum(
                                crate::semantics::arith_v(
                                    op,
                                    crate::value::to_num_v(v1),
                                    crate::value::to_num_v(v2),
                                ),
                            )),
                        }
                    },
                }
            }),
        decreases f, 3int,
    {
        let v1 = match self.eval_exp(fds, a, f) {
            Ok(v) => v,
            Err(er) => {
                return Err(er);
            },
        };
        let v2 = match self.eval_exp(fds, b, f) {
            Ok(v) => v,
            Err(er) => {
                return Err(er);
            },
        };
        let x = v1.to_num();
        let y = v2.to_num();
        let z = match op {
            ArithOp::Plus => x.plus(y),
            ArithOp::Minus => x.minus(y),
            ArithOp::Times => x.times(y),
            ArithOp::Div => x.divided_by(y),
            ArithOp::Modulo => x.rem(y),
        };
        Ok(Value::Num(z))
    }

    /// Evaluates one comparison expression.
    fn cmp_exp(
        &mut self,
        fds: &Vec<FunctionDef>,
        op: CmpOp,
        a: &Expression,
        b: &Expression,
        f: u64,
    ) -> (r: Result<Value, RuntimeError>)
        ensures
            ({
                let o1 = eval_exp_s(fds_view(fds@), old(self).st(), a.deep_view(), f as nat);
                match o1.res {
                    Err(er) => final(self).st() == o1.st && r == Err::<Value, RuntimeError>(er),
                    Ok(v1) => {
                        let o2 = eval_exp_s(fds_view(fds@), o1.st, b.deep_view(), f as nat);
                        match o2.res {
                            Err(er) => final(self).st() == o2.st && r == Err::<
                                Value,
                                RuntimeError,
                            >(er),
                            Ok(v2) => final(self).st() == o2.st && res_view(r) == Ok::<
                                ValV,
                                RuntimeError,
                            >(crate::value::from_bool_v(crate::value::cmp_v(op, v1, v2))),
                        }
                    },
                }
            }),
        decreases f, 3int,
    {
        let v1 = match self.eval_exp(fds, a, f) {
            Ok(v) => v,
            Err(er) => {
                return Err(er);
            },
        };
        let v2 = match self.eval_exp(fds, b, f) {
            Ok(v) => v,
            Err(er) => {
                return Err(er);
            },
        };
        Ok(Value::from_bool(cmp_values(op, &v1, &v2)))
    }

    /// Evaluates one match or no-match expression.
    #[verifier::rlimit(100)]
    #[verifier::spinoff_prover]
    fn match_exp(
        &mut self,
        fds: &Vec<FunctionDef>,
        l: &Expression,
        rr: &Expression,
        neg: bool,
        f: u64,
    ) -> (r: Result<Value, RuntimeError>)
        ensures
            ({
                let o = eval_exp_s(
                    fds_view(fds@),
                    old(self).st(),
                    ExprV::MatchE(neg, Box::new(l.deep_view()), Box::new(rr.deep_view())),
                    (f + 1) as nat,
                );
                final(self).st() == o.st && res_view(r) == o.res
            }),
        decreases f, 3int,
    {
        if matches!(l, Expression::Regex { .. }) {
            let ghost s0 = self.st();
            self.warnings.push(String::from_str(LEFT_REGEX_WARNING));
            proof {
                assert(self.st() =~~= (StV { warns: s0.warns.push(LEFT_REGEX_WARNING@), ..s0 }));
            }
            return Ok(Value::from_bool(neg));
        }
        let v1 = match self.eval_exp(fds, l, f) {
            Ok(v) => v,
            Err(er) => {
                return Err(er);
            },
        };
        match rr {
            Expression::Regex { source } => {
                let t1 = v1.to_text();
                let b = match compile_ere(source.as_str()) {
                    Some(re) => ere_is_match(&re, t1.as_str()),
                    None => false,
                };
                Ok(Value::from_bool(b != neg))
            },
            _ => {
                let v2 = match self.eval_exp(fds, rr, f) {
                    Ok(v) => v,
                    Err(er) => {
                        return Err(er);
                    },
                };
                let t1 = v1.to_text();
                let t2 = v2.to_text();
                let c1 = to_chars(t1.as_str());
                let c2 = to_chars(t2.as_str());
                let b = contains_chars(&c1, &c2);
                Ok(Value::from_bool(b != neg))
            },
        }
    }

    /// Evaluates a call's arguments, binding each to its parameter.
    fn eval_args(
        &mut self,
        fds: &Vec<FunctionDef>,
        args: &Vec<Box<Expression>>,
        params: &Vec<Id>,
        i: usize,
        scope: Vec<(Id, Value)>,
        fuel: u64,
    ) -> (r: Result<Vec<(Id, Value)>, RuntimeError>)
        requires
            i <= args@.len(),
        ensures
            ({
                let o = eval_args_s(
                    fds_view(fds@),
                    old(self).st(),
                    args_view(args, 0),
                    ids_view(params@),
                    i as int,
                    scope_v(scope@),
                    fuel as nat,
                );
                final(self).st() == o.st && (match r {
                    Ok(sc) => o.res == Ok::<Seq<(Seq<char>, ValV)>, RuntimeError>(scope_v(sc@)),
                    Err(er) => o.res == Err::<Seq<(Seq<char>, ValV)>, RuntimeError>(er),
                })
            }),
        decreases fuel, 0int,
    {
        if fuel == 0 {
            return Err(RuntimeError::OutOfFuel);
        }
        let f = fuel - 1;
        proof {
            lemma_args_view_index(args, 0);
        }
        if i >= args.len() {
            return Ok(scope);
        }
        if i >= params.len() {
            return Err(RuntimeError::TooManyArguments);
        }
        let v = match self.eval_exp(fds, &args[i], f) {
            Ok(v) => v,
            Err(er) => {
                return Err(er);
            },
        };
        let mut scope2 = scope;
        scope_set(&mut scope2, &params[i], v);
        self.eval_args(fds, args, params, i + 1, scope2, f)
    }

    /// Runs one statement, following `exec_stmt_s`.
    #[verifier::rlimit(100)]
    #[verifier::spinoff_prover]
    fn exec_stmt(&mut self, fds: &Vec<FunctionDef>, s: &Statement, fuel: u64) -> (r: Result<
        Option<Value>,
        RuntimeError,
    >)
        ensures
            ({
                let o = exec_stmt_s(fds_view(fds@), old(self).st(), s.deep_view(), fuel as nat);
                final(self).st() == o.st && opt_res_view(r) == o.res
            }),
        decreases fuel, 0int,
    {
        if fuel == 0 {
            return Err(RuntimeError::OutOfFuel);
        }
        let f = fuel - 1;
        match s {
            Statement::PrintStatement(ps) => {
                let v = match self.eval_exp(fds, &ps.expression, f) {
                    Ok(v) => v,
                    Err(er) => {
                        return Err(er);
                    },
                };
                let ghost s1 = self.st();
                let t = v.to_text();
                let ghost tg = t@;
                self.out.push(t);
                proof {
                    assert(self.st() =~~= (StV { out: s1.out.push(tg), ..s1 }));
                }
                Ok(None)
            },
            Statement::ExpressionStatement(e) => {
                match self.eval_exp(fds, e, f) {
                    Ok(_) => Ok(None),
                    Err(er) => Err(er),
                }
            },
            Statement::BlockStatement(b) => self.exec_block(fds, b, f),
            Statement::LocalVarStatement { id, initial_expression } => {
                let v = match initial_expression {
                    Some(e) => match self.eval_exp(fds, e, f) {
                        Ok(v) => v,
                        Err(er) => {
                            return Err(er);
                        },
                    },
                    None => Value::empty_text(),
                };
                let nl = self.local_vars.len();
                if nl == 0 {
                    return Err(RuntimeError::NoScope);
                }
                let has = match scope_get(&self.local_vars[nl - 1], id) {
                    Some(_) => true,
                    None => false,
                };
                if has {
                    return Err(RuntimeError::DuplicateLocal);
                }
                let ghost s1 = self.st();
                let ghost vg = v@;
                match self.local_vars.pop() {
                    Some(mut layer) => {
                        let ghost layer_v = scope_v(layer@);
                        layer.push((id.duplicate(), v));
                        proof {
                            assert(scope_v(layer@) =~= layer_v.push((id.0@, vg)));
                        }
                        self.local_vars.push(layer);
                        proof {
                            assert(locals_v(self.local_vars@) =~~= s1.locals.update(
                                s1.locals.len() - 1,
                                s1.locals.last().push((id.0@, vg)),
                            ));
                            assert(self.st() =~~= (StV {
                                locals: s1.locals.update(
                                    s1.locals.len() - 1,
                                    s1.locals.last().push((id.0@, vg)),
                                ),
                                ..s1
                            }));
                        }
                        Ok(None)
                    },
                    None => {
                        proof {
                            assert(false);
                        }
                        Err(RuntimeError::NoScope)
                    },
                }
            },
            Statement::IfStatement { condition, true_statement, false_statement } => {
                let cv = match self.eval_exp(fds, condition, f) {
                    Ok(v) => v,
                    Err(er) => {
                        return Err(er);
                    },
                };
                self.enter_scope();
                let ro = if cv.to_bool() {
                    self.exec_stmt(fds, true_statement, f)
                } else {
                    match false_statement {
                        Some(fs) => self.exec_stmt(fds, fs, f),
                        None => Ok(None),
                    }
                };
                match ro {
                    Err(er) => Err(er),
                    Ok(rv) => {
                        self.leave_scope();
                        Ok(rv)
                    },
                }
            },
            Statement::WhileStatement { condition, body } => {
                self.exec_while(fds, condition, body, f)
            },
            Statement::ForStatement {
                init_clause,
                condition_expression,
                iteration_expression,
                body,
            } => {
                let pushed = matches!(init_clause, Some(InitClause::Declaration(_)));
                match init_clause {
                    None => {},
                    Some(InitClause::Expression(e)) => {
                        match self.eval_exp(fds, e, f) {
                            Ok(_) => {},
                            Err(er) => {
                                return Err(er);
                            },
                        }
                    },
                    Some(InitClause::Declaration(d)) => {
                        self.enter_scope();
                        match self.exec_stmt(fds, d, f) {
                            Ok(_) => {},
                            Err(er) => {
                                return Err(er);
                            },
                        }
                    },
                }
                let lo = self.exec_for_loop(
                    fds,
                    condition_expression,
                    iteration_expression,
                    body,
                    f,
                );
                match lo {
                    Err(er) => Err(er),
                    Ok(Some(v)) => Ok(Some(v)),
                    Ok(None) => {
                        if pushed {
                            self.leave_scope();
                        }
                        Ok(None)
                    },
                }
            },
            Statement::ReturnStatement(e) => {
                match self.eval_exp(fds, e, f) {
                    Ok(v) => Ok(Some(v)),
                    Err(er) => Err(er),
                }
            },
        }
    }

    /// Runs a `while` loop, following `while_s`.
    fn exec_while(
        &mut self,
        fds: &Vec<FunctionDef>,
        c: &Expression,
        b: &Statement,
        fuel: u64,
    ) -> (r: Result<Option<Value>, RuntimeError>)
        ensures
            ({
                let o = while_s(
                    fds_view(fds@),
                    old(self).st(),
                    c.deep_view(),
                    b.deep_view(),
                    fuel as nat,
                );
                final(self).st() == o.st && opt_res_view(r) == o.res
            }),
        decreases fuel, 0int,
    {
        if fuel == 0 {
            return Err(RuntimeError::OutOfFuel);
        }
        let f = fuel - 1;
        let cv = match self.eval_exp(fds, c, f) {
            Ok(v) => v,
            Err(er) => {
                return Err(er);
            },
        };
        if !cv.to_bool() {
            return Ok(None);
        }
        self.enter_scope();
        let ro = self.exec_stmt(fds, b, f);
        match ro {
            Err(er) => Err(er),
            Ok(Some(rv)) => {
                self.leave_scope();
                Ok(Some(rv))
            },
            Ok(None) => {
                self.leave_scope();
                self.exec_while(fds, c, b, f)
            },
        }
    }

    /// Runs the repeating part of a `for` loop, following `for_loop_s`.
    #[verifier::rlimit(100)]
    fn exec_for_loop(
        &mut self,
        fds: &Vec<FunctionDef>,
        cond: &Option<Expression>,
        iter: &Option<Expression>,
        body: &Statement,
        fuel: u64,
    ) -> (r: Result<Option<Value>, RuntimeError>)
        ensures
            ({
                let o = for_loop_s(
                    fds_view(fds@),
                    old(self).st(),
                    opt_box_view(cond),
                    opt_box_view(iter),
                    Box::new(body.deep_view()),
                    fuel as nat,
                );
                final(self).st() == o.st && opt_res_view(r) == o.res
            }),
        decreases fuel, 0int,
    {
        if fuel == 0 {
            return Err(RuntimeError::OutOfFuel);
        }
        let f = fuel - 1;
        let keep_going = match cond {
            Some(c) => match self.eval_exp(fds, c, f) {
                Ok(v) => v.to_bool(),
                Err(er) => {
                    return Err(er);
                },
            },
            None => true,
        };
        if !keep_going {
            return Ok(None);
        }
        self.enter_scope();
        let ro = self.exec_stmt(fds, body, f);
        match ro {
            Err(er) => Err(er),
            Ok(Some(rv)) => {
                self.leave_scope();
                Ok(Some(rv))
            },
            Ok(None) => {
                self.leave_scope();
                match iter {
                    Some(e) => match self.eval_exp(fds, e, f) {
                        Ok(_) => {},
                        Err(er) => {
                            return Err(er);
                        },
                    },
                    None => {},
                }
                self.exec_for_loop(fds, cond, iter, body, f)
            },
        }
    }

    /// Runs a block, following `exec_block_s`.
    fn exec_block(&mut self, fds: &Vec<FunctionDef>, b: &Block, fuel: u64) -> (r: Result<
        Option<Value>,
        RuntimeError,
    >)
        ensures
            ({
                let o = exec_block_s(fds_view(fds@), old(self).st(), b.deep_view(), fuel as nat);
                final(self).st() == o.st && opt_res_view(r) == o.res
            }),
        decreases fuel, 0int,
    {
        if fuel == 0 {
            return Err(RuntimeError::OutOfFuel);
        }
        let f = fuel - 1;
        self.enter_scope();
        let ro = self.exec_stmts_run(fds, &b.statements, 0, f);
        match ro {
            Err(er) => Err(er),
            Ok(rv) => {
                self.leave_scope();
                Ok(rv)
            },
        }
    }

    /// Runs the statements of a block from position `i` on.
    fn exec_stmts_run(
        &mut self,
        fds: &Vec<FunctionDef>,
        sts: &Vec<Statement>,
        i: usize,
        fuel: u64,
    ) -> (r: Result<Option<Value>, RuntimeError>)
        requires
            i <= sts@.len(),
        ensures
            ({
                let o = stmts_run_s(
                    fds_view(fds@),
                    old(self).st(),
                    stmts_view(sts, 0),
                    i as int,
                    fuel as nat,
                );
                final(self).st() == o.st && opt_res_view(r) == o.res
            }),
        decreases fuel, 0int,
    {
        if fuel == 0 {
            return Err(RuntimeError::OutOfFuel);
        }
        let f = fuel - 1;
        proof {
            lemma_stmts_view_index(sts, 0);
        }
        if i >= sts.len() {
            return Ok(None);
        }
        let ro = self.exec_stmt(fds, &sts[i], f);
        match ro {
            Err(er) => Err(er),
            Ok(Some(v)) => Ok(Some(v)),
            Ok(None) => self.exec_stmts_run(fds, sts, i + 1, f),
        }
    }
}

} // verus!
