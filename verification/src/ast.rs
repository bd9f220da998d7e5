//! Abstract syntax: expressions, statements, patterns, function
//! definitions, and the program, together with their ghost models.
//!
//! The ghost model (`ExprV` and friends) is what the parser's and the
//! evaluator's contracts speak about; the executable tree mirrors it
//! node for node.

use vstd::prelude::*;
use crate::num::Fixed;
use crate::value::CmpOp;

verus! {

/// An interned name: equality is by exact text.
#[derive(Debug, PartialEq, Eq, Hash)]
pub struct Id(pub String);

impl Id {
    /// The text of the name.
    pub fn text(&self) -> (r: &str)
        ensures
            r@ == self.0@,
    {
        self.0.as_str()
    }

    /// A copy of this name, with the same text.
    pub fn duplicate(&self) -> (r: Id)
        ensures
            r.0@ == self.0@,
    {
        Id(self.0.clone())
    }
}

/// An arithmetic operator.
#[derive(Debug, Clone, Copy, PartialEq, Eq, Structural)]
pub enum ArithOp {
    Plus,
    Minus,
    Times,
    Div,
    Modulo,
}

/// An expression of the dialect.
#[derive(Debug, PartialEq)]
pub enum Expression {
    Str { value: String },
    ColumnNumber(u32),
    VarLookup(Id),
    Num(Fixed),
    Regex { source: String },
    Plus(Box<Expression>, Box<Expression>),
    Minus(Box<Expression>, Box<Expression>),
    Times(Box<Expression>, Box<Expression>),
    Div(Box<Expression>, Box<Expression>),
    Modulo(Box<Expression>, Box<Expression>),
    Concatenate(Box<Expression>, Box<Expression>),
    LessThan(Box<Expression>, Box<Expression>),
    LessEqual(Box<Expression>, Box<Expression>),
    NotEqual(Box<Expression>, Box<Expression>),
    Equals(Box<Expression>, Box<Expression>),
    GreaterThan(Box<Expression>, Box<Expression>),
    GreaterEqual(Box<Expression>, Box<Expression>),
    Assign(Id, Box<Expression>),
    PlusAssign(Id, Box<Expression>),
    RegexMatch(Box<Expression>, Box<Expression>),
    RegexNotMatch(Box<Expression>, Box<Expression>),
    FunctionCall { name: Id, arguments: Vec<Box<Expression>> },
    LogicalOr(Box<Expression>, Box<Expression>),
}

/// A statement of the dialect.
#[derive(Debug, PartialEq)]
pub enum Statement {
    PrintStatement(PrintStatement),
    ExpressionStatement(Expression),
    BlockStatement(Block),
    LocalVarStatement { id: Id, initial_expression: Option<Expression> },
    IfStatement {
        condition: Expression,
        true_statement: Box<Statement>,
        false_statement: Option<Box<Statement>>,
    },
    WhileStatement { condition: Expression, body: Box<Statement> },
    ForStatement {
        init_clause: Option<InitClause>,
        condition_expression: Option<Expression>,
        iteration_expression: Option<Expression>,
        body: Box<Statement>,
    },
    ReturnStatement(Expression),
}

/// The first clause of a `for` statement.
#[derive(Debug, PartialEq)]
pub enum InitClause {
    Expression(Expression),
    Declaration(Box<Statement>),
}

/// A `print` statement.
#[derive(Debug, PartialEq)]
pub struct PrintStatement {
    pub expression: Expression,
}

/// An ordered sequence of statements.
#[derive(Debug, PartialEq)]
pub struct Block {
    pub statements: Vec<Statement>,
}

/// When a rule applies: before any record, after all records, or on the
/// records for which an expression holds.
#[derive(Debug, PartialEq)]
pub enum Pattern {
    Expression(Expression),
    Begin,
    End,
}

/// One rule: a pattern, an action, or both.
#[derive(Debug, PartialEq)]
pub struct PatternBlock {
    pub pattern: Option<Pattern>,
    pub block: Option<Block>,
}

/// A user-defined function.
#[derive(Debug, PartialEq)]
pub struct FunctionDef {
    pub name: Id,
    pub parameters: Vec<Id>,
    pub body: Block,
}

/// A parsed program: its rules in order, and its function definitions in
/// definition order (a later definition of a name shadows an earlier one).
#[derive(Debug, PartialEq)]
pub struct Program {
    pub pattern_blocks: Vec<PatternBlock>,
    pub function_defs: Vec<FunctionDef>,
}

/// Ghost model of an expression.
pub enum ExprV {
    StrE(Seq<char>),
    ColE(u32),
    VarE(Seq<char>),
    NumE(int),
    RegexE(Seq<char>),
    ArithE(ArithOp, Box<ExprV>, Box<ExprV>),
    ConcatE(Box<ExprV>, Box<ExprV>),
    CmpE(CmpOp, Box<ExprV>, Box<ExprV>),
    AssignE(Seq<char>, Box<ExprV>),
    PlusAssignE(Seq<char>, Box<ExprV>),
    MatchE(bool, Box<ExprV>, Box<ExprV>),
    CallE(Seq<char>, Seq<ExprV>),
    OrE(Box<ExprV>, Box<ExprV>),
}

/// Ghost model of a statement.
pub enum StmtV {
    PrintS(Box<ExprV>),
    ExprS(Box<ExprV>),
    BlockS(Seq<StmtV>),
    LocalS(Seq<char>, Option<Box<ExprV>>),
    IfS(Box<ExprV>, Box<StmtV>, Option<Box<StmtV>>),
    WhileS(Box<ExprV>, Box<StmtV>),
    ForS(Option<InitV>, Option<Box<ExprV>>, Option<Box<ExprV>>, Box<StmtV>),
    ReturnS(Box<ExprV>),
}

/// Ghost model of a `for` initializer.
pub enum InitV {
    InitExprV(Box<ExprV>),
    InitDeclV(Box<StmtV>),
}

/// Ghost model of a pattern.
pub enum PatternV {
    ExprP(Box<ExprV>),
    BeginP,
    EndP,
}

/// Ghost model of one rule.
pub struct PatternBlockV {
    pub pattern: Option<PatternV>,
    pub block: Option<Seq<StmtV>>,
}

/// Ghost model of a function definition.
pub struct FunctionDefV {
    pub name: Seq<char>,
    pub params: Seq<Seq<char>>,
    pub body: Seq<StmtV>,
}

/// Ghost model of a program.
pub struct ProgramV {
    pub pattern_blocks: Seq<PatternBlockV>,
    pub function_defs: Seq<FunctionDefV>,
}

impl Expression {
    /// Ghost model of this expression.
    pub open spec fn deep_view(&self) -> ExprV
        decreases self,
    {
        match self {
            Expression::Str { value } => ExprV::StrE(value@),
            Expression::ColumnNumber(n) => ExprV::ColE(*n),
            Expression::VarLookup(id) => ExprV::VarE(id.0@),
            Expression::Num(f) => ExprV::NumE(f.units as int),
            Expression::Regex { source } => ExprV::RegexE(source@),
            Expression::Plus(a, b) => ExprV::ArithE(
                ArithOp::Plus,
                Box::new(a.deep_view()),
                Box::new(b.deep_view()),
            ),
            Expression::Minus(a, b) => ExprV::ArithE(
                ArithOp::Minus,
                Box::new(a.deep_view()),
                Box::new(b.deep_view()),
            ),
            Expression::Times(a, b) => ExprV::ArithE(
                ArithOp::Times,
                Box::new(a.deep_view()),
                Box::new(b.deep_view()),
            ),
            Expression::Div(a, b) => ExprV::ArithE(
                ArithOp::Div,
                Box::new(a.deep_view()),
                Box::new(b.deep_view()),
            ),
            Expression::Modulo(a, b) => ExprV::ArithE(
                ArithOp::Modulo,
                Box::new(a.deep_view()),
                Box::new(b.deep_view()),
            ),
            Expression::Concatenate(a, b) => ExprV::ConcatE(
                Box::new(a.deep_view()),
                Box::new(b.deep_view()),
            ),
            Expression::LessThan(a, b) => ExprV::CmpE(
                CmpOp::Lt,
                Box::new(a.deep_view()),
                Box::new(b.deep_view()),
            ),
            Expression::LessEqual(a, b) => ExprV::CmpE(
                CmpOp::Le,
                Box::new(a.deep_view()),
                Box::new(b.deep_view()),
            ),
            Expression::NotEqual(a, b) => ExprV::CmpE(
                CmpOp::Ne,
                Box::new(a.deep_view()),
                Box::new(b.deep_view()),
            ),
            Expression::Equals(a, b) => ExprV::CmpE(
                CmpOp::EqEq,
                Box::new(a.deep_view()),
                Box::new(b.deep_view()),
            ),
            Expression::GreaterThan(a, b) => ExprV::CmpE(
                CmpOp::Gt,
                Box::new(a.deep_view()),
                Box::new(b.deep_view()),
            ),
            Expression::GreaterEqual(a, b) => ExprV::CmpE(
                CmpOp::Ge,
                Box::new(a.deep_view()),
                Box::new(b.deep_view()),
            ),
            Expression::Assign(id, e) => ExprV::AssignE(id.0@, Box::new(e.deep_view())),
            Expression::PlusAssign(id, e) => ExprV::PlusAssignE(id.0@, Box::new(e.deep_view())),
            Expression::RegexMatch(a, b) => ExprV::MatchE(
                false,
                Box::new(a.deep_view()),
                Box::new(b.deep_view()),
            ),
            Expression::RegexNotMatch(a, b) => ExprV::MatchE(
                true,
                Box::new(a.deep_view()),
                Box::new(b.deep_view()),
            ),
            Expression::FunctionCall { name, arguments } => ExprV::CallE(
                name.0@,
                args_view(arguments, 0),
            ),
            Expression::LogicalOr(a, b) => ExprV::OrE(
                Box::new(a.deep_view()),
                Box::new(b.deep_view()),
            ),
        }
    }
}

/// Ghost model of an argument list, from position `i` on.
pub open spec fn args_view(v: &Vec<Box<Expression>>, i: int) -> Seq<ExprV>
    decreases v, v@.len() - i,
{
    if i < 0 || i >= v@.len() {
        Seq::empty()
    } else {
        seq![v@[i].deep_view()] + args_view(v, i + 1)
    }
}

impl Statement {
    /// Ghost model of this statement.
    pub open spec fn deep_view(&self) -> StmtV
        decreases self,
    {
        match self {
            Statement::PrintStatement(p) => StmtV::PrintS(Box::new(p.expression.deep_view())),
            Statement::ExpressionStatement(e) => StmtV::ExprS(Box::new(e.deep_view())),
            Statement::BlockStatement(b) => StmtV::BlockS(stmts_view(&b.statements, 0)),
            Statement::LocalVarStatement { id, initial_expression } => StmtV::LocalS(
                id.0@,
                match initial_expression {
                    Some(e) => Some(Box::new(e.deep_view())),
                    None => None,
                },
            ),
            Statement::IfStatement { condition, true_statement, false_statement } => StmtV::IfS(
                Box::new(condition.deep_view()),
                Box::new(true_statement.deep_view()),
                match false_statement {
                    Some(s) => Some(Box::new(s.deep_view())),
                    None => None,
                },
            ),
            Statement::WhileStatement { condition, body } => StmtV::WhileS(
                Box::new(condition.deep_view()),
                Box::new(body.deep_view()),
            ),
            Statement::ForStatement {
                init_clause,
                condition_expression,
                iteration_expression,
                body,
            } => StmtV::ForS(
                match init_clause {
                    Some(InitClause::Expression(e)) => Some(
                        InitV::InitExprV(Box::new(e.deep_view())),
                    ),
                    Some(InitClause::Declaration(s)) => Some(
                        InitV::InitDeclV(Box::new(s.deep_view())),
                    ),
                    None => None,
                },
                match condition_expression {
                    Some(e) => Some(Box::new(e.deep_view())),
                    None => None,
                },
                match iteration_expression {
                    Some(e) => Some(Box::new(e.deep_view())),
                    None => None,
                },
                Box::new(body.deep_view()),
            ),
            Statement::ReturnStatement(e) => StmtV::ReturnS(Box::new(e.deep_view())),
        }
    }
}

/// Ghost model of a statement list, from position `i` on.
pub open spec fn stmts_view(v: &Vec<Statement>, i: int) -> Seq<StmtV>
    decreases v, v@.len() - i,
{
    if i < 0 || i >= v@.len() {
        Seq::empty()
    } else {
        seq![v@[i].deep_view()] + stmts_view(v, i + 1)
    }
}

/// The ghost model of an argument list is the pointwise model of its
/// elements.
pub proof fn lemma_args_view_index(v: &Vec<Box<Expression>>, i: int)
    requires
        0 <= i <= v@.len(),
    ensures
        args_view(v, i).len() == v@.len() - i,
        forall|k: int|
            0 <= k < v@.len() - i ==> #[trigger] args_view(v, i)[k] == v@[k + i].deep_view(),
    decreases v@.len() - i,
{
    if i < v@.len() {
        lemma_args_view_index(v, i + 1);
    }
}

/// The ghost model of a statement list is the pointwise model of its
/// elements.
pub proof fn lemma_stmts_view_index(v: &Vec<Statement>, i: int)
    requires
        0 <= i <= v@.len(),
    ensures
        stmts_view(v, i).len() == v@.len() - i,
        forall|k: int|
            0 <= k < v@.len() - i ==> #[trigger] stmts_view(v, i)[k] == v@[k + i].deep_view(),
    decreases v@.len() - i,
{
    if i < v@.len() {
        lemma_stmts_view_index(v, i + 1);
    }
}

impl Block {
    /// Ghost model of this block.
    pub open spec fn deep_view(&self) -> Seq<StmtV> {
        stmts_view(&self.statements, 0)
    }
}

impl Pattern {
    /// Ghost model of this pattern.
    pub open spec fn deep_view(&self) -> PatternV {
        match self {
            Pattern::Expression(e) => PatternV::ExprP(Box::new(e.deep_view())),
            Pattern::Begin => PatternV::BeginP,
            Pattern::End => PatternV::EndP,
        }
    }
}

impl PatternBlock {
    /// Ghost model of this rule.
    pub open spec fn deep_view(&self) -> PatternBlockV {
        PatternBlockV {
            pattern: match &self.pattern {
                Some(p) => Some(p.deep_view()),
                None => None,
            },
            block: match &self.block {
                Some(b) => Some(b.deep_view()),
                None => None,
            },
        }
    }
}

/// Ghost model of a name list.
pub open spec fn ids_view(v: Seq<Id>) -> Seq<Seq<char>> {
    v.map_values(|p: Id| p.0@)
}

/// Ghost model of a rule list.
pub open spec fn pbs_view(v: Seq<PatternBlock>) -> Seq<PatternBlockV> {
    v.map_values(|b: PatternBlock| b.deep_view())
}

/// Ghost model of a function-definition list.
pub open spec fn fds_view(v: Seq<FunctionDef>) -> Seq<FunctionDefV> {
    v.map_values(|f: FunctionDef| f.deep_view())
}

impl FunctionDef {
    /// Ghost model of this function definition.
    pub open spec fn deep_view(&self) -> FunctionDefV {
        FunctionDefV {
            name: self.name.0@,
            params: ids_view(self.parameters@),
            body: self.body.deep_view(),
        }
    }
}

impl Program {
    /// Ghost model of this program.
    pub open spec fn deep_view(&self) -> ProgramV {
        ProgramV {
            pattern_blocks: pbs_view(self.pattern_blocks@),
            function_defs: fds_view(self.function_defs@),
        }
    }
}

} // verus!
