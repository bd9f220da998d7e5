//! A small AWK-dialect interpreter: a pattern/action language over
//! whitespace-separated records, with a verified parser and evaluator.
//!
//! Numbers are fixed-point decimals with four fractional digits, matching
//! the dialect's display policy of rounding to four decimal places.

pub mod num;
pub mod strutil;
pub mod value;
pub mod fields;
pub mod ast;
pub mod lexer;
pub mod ere;
pub mod parser;
pub mod semantics;
pub mod interpreter;
pub mod output_file;

pub use parser::{parse, ChawkParser};
pub use interpreter::{Interpreter, RunError};
pub use semantics::RuntimeError;
pub use output_file::{parse_output_file, DesiredOutput};

pub use lexer::{SyntaxError, uncomment};

pub use num::Fixed;
pub use value::Value;
pub use ast::{
    Program, PatternBlock, Pattern, FunctionDef, Block, Statement, InitClause, PrintStatement,
    Expression, Id,
};
