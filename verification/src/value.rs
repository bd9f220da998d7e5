//! Runtime values: text or number, with the dialect's coercions.
//!
//! Reading a missing variable or field yields empty text; text coerces to
//! a number by reading a decimal literal (zero on failure); a value is
//! true when it is non-empty text or a non-zero number.

use vstd::prelude::*;
use vstd::string::StringExecFns;
use crate::num::{Fixed, parse_units, format_units, parse_fixed_chars, format_fixed};
use crate::strutil::{to_chars, chars_to_string, eq_chars};

verus! {

/// A runtime value is text or a number.
#[derive(Debug, Clone)]
pub enum Value {
    Str(String),
    Num(Fixed),
}

/// Ghost model of a runtime value.
pub enum ValV {
    VStr(Seq<char>),
    VNum(int),
}

impl View for Value {
    type V = ValV;

    open spec fn view(&self) -> ValV {
        match self {
            Value::Str(s) => ValV::VStr(s@),
            Value::Num(f) => ValV::VNum(f.units as int),
        }
    }
}

/// Numeric reading of a value, in fixed-point units.
pub open spec fn to_num_v(v: ValV) -> int {
    match v {
        ValV::VStr(s) => parse_units(s),
        ValV::VNum(n) => n,
    }
}

/// Truth of a value: non-empty text or a non-zero number.
pub open spec fn to_bool_v(v: ValV) -> bool {
    match v {
        ValV::VStr(s) => s.len() > 0,
        ValV::VNum(n) => n != 0,
    }
}

/// Text reading of a value.
pub open spec fn to_text_v(v: ValV) -> Seq<char> {
    match v {
        ValV::VStr(s) => s,
        ValV::VNum(n) => format_units(n),
    }
}

/// The numbers one and zero stand for true and false.
pub open spec fn from_bool_v(b: bool) -> ValV {
    if b {
        ValV::VNum(10000)
    } else {
        ValV::VNum(0)
    }
}

/// Strict lexicographic order on text, by character value.
pub open spec fn lex_lt(a: Seq<char>, b: Seq<char>) -> bool
    decreases a.len(),
{
    if b.len() == 0 {
        false
    } else if a.len() == 0 {
        true
    } else if a[0] != b[0] {
        (a[0] as u32) < (b[0] as u32)
    } else {
        lex_lt(a.drop_first(), b.drop_first())
    }
}

/// A comparison operator of the dialect.
#[derive(Debug, Clone, Copy, PartialEq, Eq, Structural)]
pub enum CmpOp {
    Lt,
    Le,
    Ne,
    EqEq,
    Gt,
    Ge,
}

/// What a comparison means on two pieces of text.
pub open spec fn cmp_text(op: CmpOp, a: Seq<char>, b: Seq<char>) -> bool {
    match op {
        CmpOp::Lt => lex_lt(a, b),
        CmpOp::Le => !lex_lt(b, a),
        CmpOp::Ne => a != b,
        CmpOp::EqEq => a == b,
        CmpOp::Gt => lex_lt(b, a),
        CmpOp::Ge => !lex_lt(a, b),
    }
}

/// What a comparison means on two numbers.
pub open spec fn cmp_num(op: CmpOp, a: int, b: int) -> bool {
    match op {
        CmpOp::Lt => a < b,
        CmpOp::Le => a <= b,
        CmpOp::Ne => a != b,
        CmpOp::EqEq => a == b,
        CmpOp::Gt => a > b,
        CmpOp::Ge => a >= b,
    }
}

/// Typed comparison: number against number compares numerically, text
/// against text lexicographically, and a mixed pair is compared as text.
pub open spec fn cmp_v(op: CmpOp, x: ValV, y: ValV) -> bool {
    match (x, y) {
        (ValV::VStr(a), ValV::VStr(b)) => cmp_text(op, a, b),
        (ValV::VNum(a), ValV::VNum(b)) => cmp_num(op, a, b),
        _ => cmp_text(op, to_text_v(x), to_text_v(y)),
    }
}

/// Concatenation stringifies both operands and yields their text joined.
pub open spec fn concat_v(x: ValV, y: ValV) -> ValV {
    ValV::VStr(to_text_v(x) + to_text_v(y))
}

impl Value {
    /// Empty text, the value of anything unset.
    pub fn empty_text() -> (r: Value)
        ensures
            r@ == ValV::VStr(Seq::<char>::empty()),
    {
        Value::Str(String::new())
    }

    /// Numeric reading of this value.
    pub fn to_num(&self) -> (r: Fixed)
        ensures
            r.units as int == to_num_v(self@),
    {
        match self {
            Value::Str(s) => {
                let cs = to_chars(s.as_str());
                parse_fixed_chars(&cs)
            },
            Value::Num(f) => *f,
        }
    }

    /// Truth of this value.
    pub fn to_bool(&self) -> (r: bool)
        ensures
            r == to_bool_v(self@),
    {
        match self {
            Value::Str(s) => !s.as_str().is_empty(),
            Value::Num(f) => f.units != 0,
        }
    }

    /// Text reading of this value.
    pub fn to_text(&self) -> (r: String)
        ensures
            r@ == to_text_v(self@),
    {
        match self {
            Value::Str(s) => s.clone(),
            Value::Num(f) => {
                let cs = format_fixed(*f);
                chars_to_string(&cs)
            },
        }
    }

    /// A copy of this value, with the same ghost model.
    pub fn duplicate(&self) -> (r: Value)
        ensures
            r@ == self@,
    {
        match self {
            Value::Str(s) => Value::Str(s.clone()),
            Value::Num(f) => Value::Num(*f),
        }
    }

    /// The numbers one and zero stand for true and false.
    pub fn from_bool(b: bool) -> (r: Value)
        ensures
            r@ == from_bool_v(b),
    {
        if b {
            Value::Num(Fixed { units: 10000 })
        } else {
            Value::Num(Fixed { units: 0 })
        }
    }
}

/// Strict lexicographic order on character vectors.
fn lex_lt_chars(a: &Vec<char>, b: &Vec<char>) -> (r: bool)
    ensures
        r == lex_lt(a@, b@),
{
    let mut i: usize = 0;
    assert(a@.skip(0) =~= a@);
    assert(b@.skip(0) =~= b@);
    while i < a.len() && i < b.len()
        invariant
            i <= a@.len(),
            i <= b@.len(),
            lex_lt(a@, b@) == lex_lt(a@.skip(i as int), b@.skip(i as int)),
            forall|k: int| 0 <= k < i ==> a@[k] == b@[k],
        decreases a@.len() - i,
    {
        let ca = a[i];
        let cb = b[i];
        proof {
            assert(a@.skip(i as int)[0] == a@[i as int]);
            assert(b@.skip(i as int)[0] == b@[i as int]);
            assert(a@.skip(i as int).drop_first() =~= a@.skip(i as int + 1));
            assert(b@.skip(i as int).drop_first() =~= b@.skip(i as int + 1));
        }
        if ca != cb {
            return (ca as u32) < (cb as u32);
        }
        i = i + 1;
    }
    proof {
        assert(a@.skip(i as int).len() == a@.len() - i);
        assert(b@.skip(i as int).len() == b@.len() - i);
    }
    i >= a.len() && i < b.len()
}

/// Evaluates one comparison on two pieces of text.
fn cmp_text_exec(op: CmpOp, a: &Vec<char>, b: &Vec<char>) -> (r: bool)
    ensures
        r == cmp_text(op, a@, b@),
{
    match op {
        CmpOp::Lt => lex_lt_chars(a, b),
        CmpOp::Le => !lex_lt_chars(b, a),
        CmpOp::Ne => !eq_chars(a, b),
        CmpOp::EqEq => eq_chars(a, b),
        CmpOp::Gt => lex_lt_chars(b, a),
        CmpOp::Ge => !lex_lt_chars(a, b),
    }
}

/// Evaluates one typed comparison on two values.
pub fn cmp_values(op: CmpOp, x: &Value, y: &Value) -> (r: bool)
    ensures
        r == cmp_v(op, x@, y@),
{
    match (x, y) {
        (Value::Num(a), Value::Num(b)) => {
            match op {
                CmpOp::Lt => a.units < b.units,
                CmpOp::Le => a.units <= b.units,
                CmpOp::Ne => a.units != b.units,
                CmpOp::EqEq => a.units == b.units,
                CmpOp::Gt => a.units > b.units,
                CmpOp::Ge => a.units >= b.units,
            }
        },
        _ => {
            let ta = x.to_text();
            let tb = y.to_text();
            let ca = to_chars(ta.as_str());
            let cb = to_chars(tb.as_str());
            let r = cmp_text_exec(op, &ca, &cb);
            proof {
                if x@ is VStr && y@ is VStr {
                    assert(to_text_v(x@) == x@->VStr_0);
                    assert(to_text_v(y@) == y@->VStr_0);
                }
            }
            r
        },
    }
}

/// Concatenates the text of two values.
pub fn concat_values(x: &Value, y: &Value) -> (r: Value)
    ensures
        r@ == concat_v(x@, y@),
{
    let a = x.to_text();
    let b = y.to_text();
    Value::Str(a.concat(b.as_str()))
}

} // verus!
