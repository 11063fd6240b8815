//! What running a program means: a big-step semantics over the models of
//! the syntax tree and of runtime values. Evaluation carries a depth budget;
//! nesting past it is an error rather than a stack overflow.
use vstd::prelude::*;
use crate::ast::NodeModel;
use crate::error::{ErrorModel, Fault, Feature};
use crate::ops::{FloatOp, UnOp};
use crate::show::{display, PieceModel};
use crate::value::{binary_spec, FloatModel, ValueModel};

verus! {

/// What a name is bound to in a scope.
pub enum BindingModel {
    /// Declared with `let name;` and never given a value.
    Unset,
    Val(ValueModel),
    /// A non-literal initializer, evaluated afresh at every read.
    Deferred(NodeModel),
}

/// A scope: names with their bindings, each name at most once.
pub type ScopeModel = Seq<(Seq<char>, BindingModel)>;

/// A user function: its input parameters and its body.
pub struct FuncModel {
    pub params: Seq<NodeModel>,
    pub body: Seq<NodeModel>,
}

pub struct StateModel {
    /// The scope stack; the last scope is the current one.
    pub frames: Seq<ScopeModel>,
    pub functions: Seq<(Seq<char>, FuncModel)>,
    /// Set by `rn`; its presence unwinds the statements of a block.
    pub ret: Option<ValueModel>,
    pub out: Seq<PieceModel>,
}

pub type Eval = (StateModel, Result<ValueModel, ErrorModel>);

pub type EvalList = (StateModel, Result<Seq<ValueModel>, ErrorModel>);

pub type Exec = (StateModel, Result<(), ErrorModel>);

/// The first index at or after `i` whose name is `name`, or -1.
pub open spec fn find_index<V>(t: Seq<(Seq<char>, V)>, name: Seq<char>, i: int) -> int
    decreases t.len() - i,
{
    if i < 0 || i >= t.len() {
        -1
    } else if t[i].0 == name {
        i
    } else {
        find_index(t, name, i + 1)
    }
}

pub open spec fn table_get<V>(t: Seq<(Seq<char>, V)>, name: Seq<char>) -> Option<V> {
    let i = find_index(t, name, 0);
    if 0 <= i < t.len() {
        Some(t[i].1)
    } else {
        None
    }
}

/// Binds `name` to `v`, replacing an earlier binding of the same name.
pub open spec fn table_set<V>(t: Seq<(Seq<char>, V)>, name: Seq<char>, v: V) -> Seq<(Seq<char>, V)> {
    let i = find_index(t, name, 0);
    if 0 <= i < t.len() {
        t.update(i, (name, v))
    } else {
        t.push((name, v))
    }
}

/// Looks a name up in the current scope first, then in the scopes below
/// it, nearest first.
pub open spec fn lookup(frames: Seq<ScopeModel>, name: Seq<char>) -> Option<BindingModel>
    decreases frames.len(),
{
    if frames.len() == 0 {
        None
    } else {
        match table_get(frames.last(), name) {
            Some(b) => Some(b),
            None => lookup(frames.drop_last(), name),
        }
    }
}

/// Binds a name in the current scope only.
pub open spec fn bind(st: StateModel, name: Seq<char>, b: BindingModel) -> StateModel {
    if st.frames.len() == 0 {
        st
    } else {
        StateModel {
            frames: st.frames.update(st.frames.len() - 1, table_set(st.frames.last(), name, b)),
            ..st
        }
    }
}

/// The scope stack without its current scope.
pub open spec fn pop_frame(frames: Seq<ScopeModel>) -> Seq<ScopeModel> {
    if frames.len() == 0 {
        frames
    } else {
        frames.drop_last()
    }
}

pub open spec fn print_word() -> Seq<char> {
    seq!['p', 'r', 'i', 'n', 't']
}

pub open spec fn println_word() -> Seq<char> {
    seq!['p', 'r', 'i', 'n', 't', 'l', 'n']
}

/// The plain forms of the values, one after another.
pub open spec fn display_all(vals: Seq<ValueModel>) -> Seq<PieceModel>
    decreases vals.len(),
{
    if vals.len() == 0 {
        Seq::empty()
    } else {
        display_all(vals.drop_last()) + display(vals.last())
    }
}

/// The scope of a call: each input parameter that is a plain name bound to
/// the matching argument.
pub open spec fn bind_params(params: Seq<NodeModel>, vals: Seq<ValueModel>) -> ScopeModel
    decreases params.len(),
{
    if params.len() == 0 || params.len() > vals.len() {
        Seq::empty()
    } else {
        let scope = bind_params(params.drop_last(), vals);
        match params.last() {
            NodeModel::Id(n) => table_set(scope, n, BindingModel::Val(vals[params.len() - 1])),
            _ => scope,
        }
    }
}

/// The value of a literal node, or `None` for any other node.
pub open spec fn literal_value(e: NodeModel) -> Option<ValueModel> {
    match e {
        NodeModel::Integer(v) => Some(ValueModel::Integer(v)),
        NodeModel::Float(t) => Some(ValueModel::Float(FloatModel::Literal(t))),
        NodeModel::Bool(b) => Some(ValueModel::Boolean(b)),
        NodeModel::Str(s) => Some(ValueModel::Str(s)),
        NodeModel::NoneLit => Some(ValueModel::Nil),
        _ => None,
    }
}

/// `!` and `-` look at the operand as written, not at its value; `++` and
/// `--` step a numeric variable, writing the result into the current scope.
pub open spec fn unary_spec(st: StateModel, op: UnOp, operand: NodeModel) -> Eval {
    match op {
        UnOp::Not => match operand {
            NodeModel::NoneLit => (st, Ok(ValueModel::Boolean(true))),
            NodeModel::Bool(b) => (st, Ok(ValueModel::Boolean(!b))),
            NodeModel::Integer(v) => (st, Ok(ValueModel::Integer((-(v as int) - 1) as i32))),
            NodeModel::List(items) => (st, Ok(ValueModel::Boolean(items.len() == 0))),
            _ => (st, Err(ErrorModel::Unsupported(Feature::Unary(op)))),
        },
        UnOp::Minus => match operand {
            NodeModel::Integer(v) => if v == i32::MIN {
                (st, Err(ErrorModel::Arithmetic(Fault::Overflow)))
            } else {
                (st, Ok(ValueModel::Integer((-v) as i32)))
            },
            _ => (st, Err(ErrorModel::Unsupported(Feature::Unary(op)))),
        },
        UnOp::Plus => (st, Err(ErrorModel::Unsupported(Feature::Unary(op)))),
        _ => {
            let delta: int = if op == UnOp::Increment { 1 } else { -1 };
            match operand {
                NodeModel::Id(n) => match lookup(st.frames, n) {
                    Some(BindingModel::Val(ValueModel::Integer(v))) => if i32::MIN <= v + delta
                        <= i32::MAX {
                        let nv = ValueModel::Integer((v + delta) as i32);
                        (bind(st, n, BindingModel::Val(nv)), Ok(nv))
                    } else {
                        (st, Err(ErrorModel::Arithmetic(Fault::Overflow)))
                    },
                    Some(BindingModel::Val(ValueModel::Float(x))) => {
                        let fop = if op == UnOp::Increment { FloatOp::Add } else { FloatOp::Sub };
                        let nv = ValueModel::Float(
                            FloatModel::Arith(fop, Box::new(x), Box::new(FloatModel::FromInt(1))),
                        );
                        (bind(st, n, BindingModel::Val(nv)), Ok(nv))
                    },
                    _ => (st, Err(ErrorModel::Step(op))),
                },
                _ => (st, Err(ErrorModel::Step(op))),
            }
        },
    }
}

/// Evaluates an expression with depth budget `f`.
pub open spec fn eval(st: StateModel, e: NodeModel, f: nat) -> Eval
    decreases f, 0nat,
{
    if f == 0 {
        (st, Err(ErrorModel::TooDeep))
    } else {
        match e {
            NodeModel::Integer(_) | NodeModel::Float(_) | NodeModel::Bool(_) | NodeModel::Str(_)
            | NodeModel::NoneLit => (st, Ok(literal_value(e)->Some_0)),
            NodeModel::List(items) => {
                let (s1, r) = eval_list(st, items, (f - 1) as nat);
                match r {
                    Ok(vals) => (s1, Ok(ValueModel::List(vals))),
                    Err(err) => (s1, Err(err)),
                }
            },
            NodeModel::Id(name) => match lookup(st.frames, name) {
                Some(BindingModel::Val(v)) => (st, Ok(v)),
                Some(BindingModel::Deferred(x)) => eval(st, x, (f - 1) as nat),
                _ => (st, Err(ErrorModel::Name(name))),
            },
            NodeModel::Binary { left, op, right } => {
                let (s1, l) = eval(st, *left, (f - 1) as nat);
                match l {
                    Err(err) => (s1, Err(err)),
                    Ok(lv) => {
                        let (s2, r) = eval(s1, *right, (f - 1) as nat);
                        match r {
                            Err(err) => (s2, Err(err)),
                            Ok(rv) => (s2, binary_spec(op, lv, rv)),
                        }
                    },
                }
            },
            NodeModel::Unary { operator, operand } => unary_spec(st, operator, *operand),
            NodeModel::Call { name, args } => match *name {
                NodeModel::Id(fname) => if fname == print_word() || fname == println_word() {
                    let (s1, r) = eval_list(st, args, (f - 1) as nat);
                    match r {
                        Err(err) => (s1, Err(err)),
                        Ok(vals) => {
                            let nl = if fname == println_word() {
                                seq![PieceModel::Text(seq!['\n'])]
                            } else {
                                Seq::empty()
                            };
                            (
                                StateModel { out: s1.out + display_all(vals) + nl, ..s1 },
                                Ok(ValueModel::Nil),
                            )
                        },
                    }
                } else {
                    match table_get(st.functions, fname) {
                        None => (st, Err(ErrorModel::Name(fname))),
                        Some(fd) => {
                            let (s1, r) = eval_list(st, args, (f - 1) as nat);
                            match r {
                                Err(err) => (s1, Err(err)),
                                Ok(vals) => if vals.len() != fd.params.len() {
                                    (
                                        s1,
                                        Err(
                                            ErrorModel::Arity {
                                                name: fname,
                                                expected: fd.params.len(),
                                                found: vals.len(),
                                            },
                                        ),
                                    )
                                } else {
                                    let s2 = StateModel {
                                        frames: s1.frames.push(bind_params(fd.params, vals)),
                                        ..s1
                                    };
                                    let (s3, r3) = exec_block(s2, fd.body, (f - 1) as nat);
                                    match r3 {
                                        Err(err) => (s3, Err(err)),
                                        Ok(_) => {
                                            let v = match s3.ret {
                                                Some(v) => v,
                                                None => ValueModel::Nil,
                                            };
                                            (
                                                StateModel {
                                                    frames: pop_frame(s3.frames),
                                                    ret: None,
                                                    ..s3
                                                },
                                                Ok(v),
                                            )
                                        },
                                    }
                                },
                            }
                        },
                    }
                },
                _ => (st, Err(ErrorModel::Unsupported(Feature::CallTarget))),
            },
            _ => (st, Err(ErrorModel::Unsupported(Feature::Expression))),
        }
    }
}

/// Evaluates expressions left to right, stopping at the first error.
pub open spec fn eval_list(st: StateModel, items: Seq<NodeModel>, f: nat) -> EvalList
    decreases f, items.len() + 1,
{
    if items.len() == 0 {
        (st, Ok(Seq::empty()))
    } else {
        let (s1, r) = eval_list(st, items.drop_last(), f);
        match r {
            Err(err) => (s1, Err(err)),
            Ok(vals) => {
                let (s2, r2) = eval(s1, items.last(), f);
                match r2 {
                    Err(err) => (s2, Err(err)),
                    Ok(v) => (s2, Ok(vals.push(v))),
                }
            },
        }
    }
}

/// Runs statements in order until one fails or a return value is set.
pub open spec fn exec_block(st: StateModel, stmts: Seq<NodeModel>, f: nat) -> Exec
    decreases f, stmts.len() + 1,
{
    if stmts.len() == 0 {
        (st, Ok(()))
    } else {
        let (s1, r) = exec_block(st, stmts.drop_last(), f);
        match r {
            Err(err) => (s1, Err(err)),
            Ok(_) => if s1.ret is Some {
                (s1, r)
            } else {
                exec_stmt(s1, stmts.last(), f)
            },
        }
    }
}

/// Runs one statement.
pub open spec fn exec_stmt(st: StateModel, s: NodeModel, f: nat) -> Exec
    decreases f, 0nat,
{
    if f == 0 {
        (st, Err(ErrorModel::TooDeep))
    } else {
        match s {
            NodeModel::Var { name, value } => match *name {
                NodeModel::Id(n) => {
                    let b = match value {
                        None => BindingModel::Unset,
                        Some(v) => match literal_value(*v) {
                            Some(lit) => BindingModel::Val(lit),
                            None => BindingModel::Deferred(*v),
                        },
                    };
                    (bind(st, n, b), Ok(()))
                },
                _ => (st, Err(ErrorModel::Unsupported(Feature::Statement))),
            },
            NodeModel::Function { name, inputs, outputs, block } => match *name {
                NodeModel::Id(n) => {
                    let params = match inputs {
                        Some(ps) => ps,
                        None => Seq::empty(),
                    };
                    (
                        StateModel {
                            functions: table_set(st.functions, n, FuncModel { params, body: block }),
                            ..st
                        },
                        Ok(()),
                    )
                },
                _ => (st, Err(ErrorModel::Unsupported(Feature::Statement))),
            },
            NodeModel::Return(items) => if items.len() == 0 {
                (StateModel { ret: Some(ValueModel::Nil), ..st }, Ok(()))
            } else if items.len() == 1 {
                let (s1, r) = eval(st, items[0], (f - 1) as nat);
                match r {
                    Err(err) => (s1, Err(err)),
                    Ok(v) => (StateModel { ret: Some(v), ..s1 }, Ok(())),
                }
            } else {
                let (s1, r) = eval_list(st, items, (f - 1) as nat);
                match r {
                    Err(err) => (s1, Err(err)),
                    Ok(vals) => (StateModel { ret: Some(ValueModel::List(vals)), ..s1 }, Ok(())),
                }
            },
            NodeModel::If { .. } | NodeModel::While { .. } | NodeModel::For { .. }
            | NodeModel::Match { .. } | NodeModel::Class { .. } | NodeModel::Parent { .. }
            | NodeModel::Use(_) => (st, Err(ErrorModel::Unsupported(Feature::Statement))),
            _ => {
                let (s1, r) = eval(st, s, (f - 1) as nat);
                match r {
                    Err(err) => (s1, Err(err)),
                    Ok(_) => (s1, Ok(())),
                }
            },
        }
    }
}

/// Runs top-level statements. A return value set at top level is dropped.
pub open spec fn run_stmts(st: StateModel, stmts: Seq<NodeModel>, f: nat) -> Exec
    decreases stmts.len(),
{
    if stmts.len() == 0 {
        (st, Ok(()))
    } else {
        let (s1, r) = run_stmts(st, stmts.drop_last(), f);
        match r {
            Err(err) => (s1, Err(err)),
            Ok(_) => {
                let (s2, r2) = exec_stmt(s1, stmts.last(), f);
                (StateModel { ret: None, ..s2 }, r2)
            },
        }
    }
}

pub open spec fn initial_state() -> StateModel {
    StateModel { frames: seq![Seq::empty()], functions: Seq::empty(), ret: None, out: Seq::empty() }
}

} // verus!
