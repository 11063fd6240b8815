//! Runtime values, the operator table over them, and how they are shown.
use vstd::prelude::*;
use crate::error::{ErrorModel, Fault, Feature, Kind, RuntimeError};
use crate::ops::{BinOp, FloatOp};

verus! {

/// A floating-point number, kept as the exact sequence of IEEE-754 double
/// operations that produced it. It is computed only where it is shown.
#[derive(Debug)]
pub enum FloatNum {
    /// A decimal literal as written: digits and one `.`.
    Literal(Vec<char>),
    /// A 32-bit integer converted to a double.
    FromInt(i32),
    /// The rounded result of an operation on two doubles.
    Arith(FloatOp, Box<FloatNum>, Box<FloatNum>),
}

/// The mathematical form of [`FloatNum`].
pub enum FloatModel {
    Literal(Seq<char>),
    FromInt(i32),
    Arith(FloatOp, Box<FloatModel>, Box<FloatModel>),
}

impl FloatNum {
    pub open spec fn view(&self) -> FloatModel
        decreases self,
    {
        match self {
            FloatNum::Literal(t) => FloatModel::Literal(t@),
            FloatNum::FromInt(i) => FloatModel::FromInt(*i),
            FloatNum::Arith(op, a, b) => FloatModel::Arith(
                *op,
                Box::new((**a).view()),
                Box::new((**b).view()),
            ),
        }
    }
}

/// A runtime value: exactly one payload per variant.
#[derive(Debug)]
pub enum Value {
    Integer(i32),
    Float(FloatNum),
    Boolean(bool),
    Str(Vec<char>),
    List(Vec<Value>),
    /// The value written `None`.
    Nil,
}

/// The mathematical form of [`Value`].
pub enum ValueModel {
    Integer(i32),
    Float(FloatModel),
    Boolean(bool),
    Str(Seq<char>),
    List(Seq<ValueModel>),
    Nil,
}

impl Value {
    pub open spec fn view(&self) -> ValueModel
        decreases self,
    {
        match self {
            Value::Integer(i) => ValueModel::Integer(*i),
            Value::Float(f) => ValueModel::Float(f@),
            Value::Boolean(b) => ValueModel::Boolean(*b),
            Value::Str(s) => ValueModel::Str(s@),
            Value::List(items) => ValueModel::List(values_view(items@)),
            Value::Nil => ValueModel::Nil,
        }
    }
}

pub open spec fn values_view(s: Seq<Value>) -> Seq<ValueModel>
    decreases s,
{
    if s.len() == 0 {
        Seq::empty()
    } else {
        values_view(s.drop_last()).push(s.last().view())
    }
}

pub proof fn lemma_values_view(s: Seq<Value>)
    ensures
        values_view(s).len() == s.len(),
        forall|i: int| 0 <= i < s.len() ==> #[trigger] values_view(s)[i] == s[i]@,
    decreases s.len(),
{
    if s.len() > 0 {
        lemma_values_view(s.drop_last());
    }
}

pub proof fn lemma_values_view_push(s: Seq<Value>, v: Value)
    ensures
        values_view(s.push(v)) == values_view(s).push(v@),
{
    assert(s.push(v).drop_last() =~= s);
}

pub proof fn lemma_values_view_concat(a: Seq<Value>, b: Seq<Value>)
    ensures
        values_view(a + b) == values_view(a) + values_view(b),
{
    lemma_values_view(a);
    lemma_values_view(b);
    lemma_values_view(a + b);
    assert(values_view(a + b) =~= values_view(a) + values_view(b));
}

pub open spec fn value_result(r: Result<Value, RuntimeError>) -> Result<ValueModel, ErrorModel> {
    match r {
        Ok(v) => Ok(v@),
        Err(e) => Err(e@),
    }
}

pub open spec fn kind_of(v: ValueModel) -> Kind {
    match v {
        ValueModel::Integer(_) => Kind::Integer,
        ValueModel::Float(_) => Kind::Float,
        ValueModel::Boolean(_) => Kind::Boolean,
        ValueModel::Str(_) => Kind::Str,
        ValueModel::List(_) => Kind::List,
        ValueModel::Nil => Kind::Nil,
    }
}

/// An integer result, or an overflow fault when it leaves the 32-bit range.
pub open spec fn int_result(x: int) -> Result<ValueModel, ErrorModel> {
    if i32::MIN <= x <= i32::MAX {
        Ok(ValueModel::Integer(x as i32))
    } else {
        Err(ErrorModel::Arithmetic(Fault::Overflow))
    }
}

pub open spec fn abs(x: int) -> int {
    if x < 0 {
        -x
    } else {
        x
    }
}

/// Integer division that rounds toward zero.
pub open spec fn trunc_div(a: int, b: int) -> int {
    let q = abs(a) / abs(b);
    if (a < 0) != (b < 0) {
        -q
    } else {
        q
    }
}

/// `s` written `n` times in a row; empty when `n` is not positive.
pub open spec fn repeat(s: Seq<char>, n: int) -> Seq<char>
    decreases n,
{
    if n <= 0 {
        Seq::empty()
    } else {
        repeat(s, n - 1) + s
    }
}

/// A number as a float: integers are promoted, never the other way round.
pub open spec fn as_float(v: ValueModel) -> Option<FloatModel> {
    match v {
        ValueModel::Integer(i) => Some(FloatModel::FromInt(i)),
        ValueModel::Float(f) => Some(f),
        _ => None,
    }
}

/// The float result of `l op r` when both are numbers; `otherwise` when not.
pub open spec fn float_arith(
    op: FloatOp,
    l: ValueModel,
    r: ValueModel,
    otherwise: Result<ValueModel, ErrorModel>,
) -> Result<ValueModel, ErrorModel> {
    match (as_float(l), as_float(r)) {
        (Some(a), Some(b)) => Ok(ValueModel::Float(FloatModel::Arith(op, Box::new(a), Box::new(b)))),
        _ => otherwise,
    }
}

/// The operator table: what `l op r` gives for each pair of operand types.
pub open spec fn binary_spec(op: BinOp, l: ValueModel, r: ValueModel) -> Result<
    ValueModel,
    ErrorModel,
> {
    let type_error = Err(ErrorModel::Type { op, left: kind_of(l), right: kind_of(r) });
    match op {
        BinOp::Add => match (l, r) {
            (ValueModel::Integer(a), ValueModel::Integer(b)) => int_result(a + b),
            (ValueModel::Str(a), ValueModel::Str(b)) => Ok(ValueModel::Str(a + b)),
            (ValueModel::List(a), ValueModel::List(b)) => Ok(ValueModel::List(a + b)),
            (ValueModel::List(a), x) => Ok(ValueModel::List(a.push(x))),
            _ => float_arith(FloatOp::Add, l, r, type_error),
        },
        BinOp::Sub => match (l, r) {
            (ValueModel::Integer(a), ValueModel::Integer(b)) => int_result(a - b),
            _ => float_arith(FloatOp::Sub, l, r, type_error),
        },
        BinOp::Mul => match (l, r) {
            (ValueModel::Integer(a), ValueModel::Integer(b)) => int_result(a * b),
            (ValueModel::Integer(n), ValueModel::Str(s)) => Ok(ValueModel::Str(repeat(s, n as int))),
            (ValueModel::Str(s), ValueModel::Integer(n)) => Ok(ValueModel::Str(repeat(s, n as int))),
            _ => float_arith(FloatOp::Mul, l, r, type_error),
        },
        BinOp::Div => match (l, r) {
            (ValueModel::Integer(a), ValueModel::Integer(b)) => if b == 0 {
                Err(ErrorModel::Arithmetic(Fault::DivisionByZero))
            } else {
                int_result(trunc_div(a as int, b as int))
            },
            _ => float_arith(FloatOp::Div, l, r, type_error),
        },
        _ => Err(ErrorModel::Unsupported(Feature::Operator(op))),
    }
}

pub fn kind(v: &Value) -> (k: Kind)
    ensures
        k == kind_of(v@),
{
    match v {
        Value::Integer(_) => Kind::Integer,
        Value::Float(_) => Kind::Float,
        Value::Boolean(_) => Kind::Boolean,
        Value::Str(_) => Kind::Str,
        Value::List(_) => Kind::List,
        Value::Nil => Kind::Nil,
    }
}

/// A copy of a run of characters.
pub fn copy_text(s: &Vec<char>) -> (r: Vec<char>)
    ensures
        r@ == s@,
{
    let mut out: Vec<char> = Vec::new();
    let mut i: usize = 0;
    while i < s.len()
        invariant
            0 <= i <= s.len(),
            out@ == s@.subrange(0, i as int),
        decreases s.len() - i,
    {
        out.push(s[i]);
        i = i + 1;
        assert(out@ =~= s@.subrange(0, i as int));
    }
    assert(s@.subrange(0, i as int) =~= s@);
    out
}

pub fn copy_float(f: &FloatNum) -> (r: FloatNum)
    ensures
        r@ == f@,
    decreases f,
{
    match f {
        FloatNum::Literal(t) => FloatNum::Literal(copy_text(t)),
        FloatNum::FromInt(i) => FloatNum::FromInt(*i),
        FloatNum::Arith(op, a, b) => {
            let a2 = copy_float(a);
            let b2 = copy_float(b);
            FloatNum::Arith(*op, Box::new(a2), Box::new(b2))
        },
    }
}

pub fn copy_value(v: &Value) -> (r: Value)
    ensures
        r@ == v@,
    decreases v,
{
    match v {
        Value::Integer(i) => Value::Integer(*i),
        Value::Float(f) => Value::Float(copy_float(f)),
        Value::Boolean(b) => Value::Boolean(*b),
        Value::Str(s) => Value::Str(copy_text(s)),
        Value::List(items) => {
            let mut out: Vec<Value> = Vec::new();
            let mut i: usize = 0;
            proof {
                lemma_values_view(items@);
            }
            while i < items.len()
                invariant
                    0 <= i <= items.len(),
                    *v == Value::List(*items),
                    values_view(out@) == values_view(items@.subrange(0, i as int)),
                decreases items.len() - i,
            {
                proof {
                    let ghost vv = *v;
                    assert(decreases_to!(vv => vv->List_0));
                    assert(decreases_to!(vv->List_0 => vv->List_0@));
                    assert(decreases_to!(vv->List_0@ => vv->List_0@[i as int]));
                }
                let c = copy_value(&items[i]);
                proof {
                    lemma_values_view_push(out@, c);
                    assert(items@.subrange(0, i as int + 1) =~= items@.subrange(0, i as int).push(
                        items@[i as int],
                    ));
                    lemma_values_view_push(items@.subrange(0, i as int), items@[i as int]);
                }
                out.push(c);
                i = i + 1;
            }
            assert(items@.subrange(0, i as int) =~= items@);
            Value::List(out)
        },
        Value::Nil => Value::Nil,
    }
}

/// `s` written `n` times in a row.
pub fn repeat_text(s: &Vec<char>, n: i32) -> (r: Vec<char>)
    ensures
        r@ == repeat(s@, n as int),
{
    let mut out: Vec<char> = Vec::new();
    let mut k: i32 = 0;
    if n <= 0 {
        return out;
    }
    while k < n
        invariant
            0 <= k <= n,
            out@ == repeat(s@, k as int),
        decreases n - k,
    {
        let mut j: usize = 0;
        while j < s.len()
            invariant
                0 <= j <= s.len(),
                out@ == repeat(s@, k as int) + s@.subrange(0, j as int),
            decreases s.len() - j,
        {
            out.push(s[j]);
            j = j + 1;
            assert(out@ =~= repeat(s@, k as int) + s@.subrange(0, j as int));
        }
        assert(s@.subrange(0, j as int) =~= s@);
        k = k + 1;
    }
    out
}

fn int_value(x: i64) -> (r: Result<Value, RuntimeError>)
    ensures
        value_result(r) == int_result(x as int),
{
    if x < i32::MIN as i64 || x > i32::MAX as i64 {
        Err(RuntimeError::Arithmetic(Fault::Overflow))
    } else {
        Ok(Value::Integer(x as i32))
    }
}

fn int_arith(op: BinOp, a: i32, b: i32) -> (r: Result<Value, RuntimeError>)
    requires
        op == BinOp::Add || op == BinOp::Sub || op == BinOp::Mul || op == BinOp::Div,
    ensures
        value_result(r) == binary_spec(op, ValueModel::Integer(a), ValueModel::Integer(b)),
{
    let x = a as i64;
    let y = b as i64;
    match op {
        BinOp::Add => int_value(x + y),
        BinOp::Sub => int_value(x - y),
        BinOp::Mul => {
            assert(-2147483648 * 2147483648 <= x * y <= 2147483648 * 2147483648) by (nonlinear_arith)
                requires
                    -2147483648 <= x <= 2147483647,
                    -2147483648 <= y <= 2147483647,
            ;
            int_value(x * y)
        },
        _ => {
            if b == 0 {
                return Err(RuntimeError::Arithmetic(Fault::DivisionByZero));
            }
            let ua: u64 = if x < 0 { (-x) as u64 } else { x as u64 };
            let ub: u64 = if y < 0 { (-y) as u64 } else { y as u64 };
            let q: u64 = ua / ub;
            assert(q <= ua) by (nonlinear_arith)
                requires
                    ub >= 1,
                    q == ua / ub,
            ;
            let signed: i64 = if (x < 0) != (y < 0) { -(q as i64) } else { q as i64 };
            assert(signed == trunc_div(a as int, b as int));
            int_value(signed)
        },
    }
}

fn float_of(v: Value) -> (r: Option<FloatNum>)
    ensures
        match r {
            Some(f) => as_float(v@) == Some(f@),
            None => as_float(v@) is None,
        },
{
    match v {
        Value::Integer(i) => Some(FloatNum::FromInt(i)),
        Value::Float(f) => Some(f),
        _ => None,
    }
}

fn float_op(op: BinOp) -> (r: FloatOp)
    requires
        op == BinOp::Add || op == BinOp::Sub || op == BinOp::Mul || op == BinOp::Div,
    ensures
        op == BinOp::Add ==> r == FloatOp::Add,
        op == BinOp::Sub ==> r == FloatOp::Sub,
        op == BinOp::Mul ==> r == FloatOp::Mul,
        op == BinOp::Div ==> r == FloatOp::Div,
{
    match op {
        BinOp::Add => FloatOp::Add,
        BinOp::Sub => FloatOp::Sub,
        BinOp::Mul => FloatOp::Mul,
        _ => FloatOp::Div,
    }
}

/// Applies a binary operator to two evaluated operands.
pub fn binary(op: BinOp, l: Value, r: Value) -> (res: Result<Value, RuntimeError>)
    ensures
        value_result(res) == binary_spec(op, l@, r@),
{
    let lk = kind(&l);
    let rk = kind(&r);
    let type_error = RuntimeError::Type { op, left: lk, right: rk };
    match op {
        BinOp::Add | BinOp::Sub | BinOp::Mul | BinOp::Div => {},
        _ => {
            return Err(RuntimeError::Unsupported(Feature::Operator(op)));
        },
    }
    let ghost lm = l@;
    let ghost rm = r@;
    match l {
        Value::Integer(a) => match r {
            Value::Integer(b) => int_arith(op, a, b),
            Value::Str(s) => if op == BinOp::Mul {
                Ok(Value::Str(repeat_text(&s, a)))
            } else {
                Err(type_error)
            },
            Value::Float(f) => {
                let fo = float_op(op);
                let promoted = FloatNum::FromInt(a);
                assert(promoted@ == FloatModel::FromInt(a));
                let res = FloatNum::Arith(fo, Box::new(promoted), Box::new(f));
                assert(res@ == FloatModel::Arith(fo, Box::new(FloatModel::FromInt(a)), Box::new(f@)));
                Ok(Value::Float(res))
            },
            _ => Err(type_error),
        },
        Value::Float(a) => {
            let fr = float_of(r);
            match fr {
                Some(b) => {
                    let fo = float_op(op);
                    let res = FloatNum::Arith(fo, Box::new(a), Box::new(b));
                    assert(res@ == FloatModel::Arith(fo, Box::new(a@), Box::new(b@)));
                    Ok(Value::Float(res))
                },
                None => Err(type_error),
            }
        },
        Value::Str(mut a) => match r {
            Value::Str(mut b) => if op == BinOp::Add {
                a.append(&mut b);
                Ok(Value::Str(a))
            } else {
                Err(type_error)
            },
            Value::Integer(n) => if op == BinOp::Mul {
                Ok(Value::Str(repeat_text(&a, n)))
            } else {
                Err(type_error)
            },
            _ => Err(type_error),
        },
        Value::List(mut a) => if op == BinOp::Add {
            match r {
                Value::List(mut b) => {
                    proof {
                        lemma_values_view_concat(a@, b@);
                    }
                    a.append(&mut b);
                    Ok(Value::List(a))
                },
                x => {
                    proof {
                        lemma_values_view_push(a@, x);
                    }
                    a.push(x);
                    Ok(Value::List(a))
                },
            }
        } else {
            Err(type_error)
        },
        _ => Err(type_error),
    }
}

} // verus!
