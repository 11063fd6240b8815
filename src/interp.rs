//! The tree-walking interpreter, proved to follow the semantics in
//! `semantics`.
use vstd::prelude::*;
use crate::ast::{copy_node, copy_nodes, lemma_nodes_view, nodes_view, Node, NodeModel};
use crate::error::{ErrorModel, Fault, Feature, RuntimeError};
use crate::lexer::text_is;
use crate::ops::{FloatOp, UnOp};
use crate::semantics::{
    bind, bind_params, display_all, eval, eval_list, exec_block, exec_stmt, find_index,
    initial_state, literal_value, lookup, pop_frame, run_stmts, table_set, unary_spec,
    BindingModel, FuncModel, ScopeModel, StateModel,
};
use crate::show::{pieces_view, show, Piece, PieceModel};
use crate::value::{
    binary, copy_float, copy_text, copy_value, lemma_values_view, lemma_values_view_push,
    value_result, values_view, FloatModel, FloatNum, Value, ValueModel,
};

verus! {

/// What a name is bound to in a scope.
#[derive(Debug)]
pub enum Binding {
    Unset,
    Val(Value),
    /// A non-literal initializer, evaluated afresh at every read.
    Deferred(Node),
}

impl Binding {
    pub open spec fn view(&self) -> BindingModel {
        match self {
            Binding::Unset => BindingModel::Unset,
            Binding::Val(v) => BindingModel::Val(v@),
            Binding::Deferred(n) => BindingModel::Deferred(n@),
        }
    }
}

#[derive(Debug)]
pub struct Entry {
    pub name: Vec<char>,
    pub binding: Binding,
}

impl Entry {
    pub open spec fn view(&self) -> (Seq<char>, BindingModel) {
        (self.name@, self.binding@)
    }
}

pub open spec fn scope_view(s: Vec<Entry>) -> ScopeModel {
    s@.map_values(|e: Entry| e@)
}

/// A declared function: its name, input parameters and body.
#[derive(Debug)]
pub struct FuncDef {
    pub name: Vec<char>,
    pub params: Vec<Node>,
    pub body: Vec<Node>,
}

impl FuncDef {
    pub open spec fn view(&self) -> (Seq<char>, FuncModel) {
        (self.name@, FuncModel { params: nodes_view(self.params@), body: nodes_view(self.body@) })
    }
}

/// The interpreter's state: the scope stack (current scope last), the
/// function table, the pending return value and the output so far.
#[derive(Debug)]
pub struct Interpreter {
    pub frames: Vec<Vec<Entry>>,
    pub functions: Vec<FuncDef>,
    pub ret: Option<Value>,
    pub output: Vec<Piece>,
}

pub open spec fn unit_result(r: Result<(), RuntimeError>) -> Result<(), ErrorModel> {
    match r {
        Ok(_) => Ok(()),
        Err(e) => Err(e@),
    }
}

pub open spec fn values_result(r: Result<Vec<Value>, RuntimeError>) -> Result<
    Seq<ValueModel>,
    ErrorModel,
> {
    match r {
        Ok(v) => Ok(values_view(v@)),
        Err(e) => Err(e@),
    }
}

/// The binding of `let name = v;`: a literal is bound to its value, any
/// other expression is kept to be evaluated at each read.
fn initial_binding(v: &Node) -> (r: Binding)
    ensures
        r@ == match literal_value(v@) {
            Some(lit) => BindingModel::Val(lit),
            None => BindingModel::Deferred(v@),
        },
{
    match v {
        Node::Integer(x) => Binding::Val(Value::Integer(*x)),
        Node::Float(t) => {
            let lit = FloatNum::Literal(copy_text(t));
            assert(lit@ == FloatModel::Literal(t@));
            Binding::Val(Value::Float(lit))
        },
        Node::Bool(x) => Binding::Val(Value::Boolean(*x)),
        Node::Str(t) => Binding::Val(Value::Str(copy_text(t))),
        Node::NoneLit => Binding::Val(Value::Nil),
        _ => Binding::Deferred(copy_node(v)),
    }
}

fn text_eq(a: &Vec<char>, b: &Vec<char>) -> (r: bool)
    ensures
        r == (a@ == b@),
{
    text_is(a, b.as_slice())
}

fn copy_binding(b: &Binding) -> (r: Binding)
    ensures
        r@ == b@,
{
    match b {
        Binding::Unset => Binding::Unset,
        Binding::Val(v) => Binding::Val(copy_value(v)),
        Binding::Deferred(n) => Binding::Deferred(copy_node(n)),
    }
}

fn scope_find(scope: &Vec<Entry>, name: &Vec<char>) -> (r: Option<usize>)
    ensures
        match r {
            Some(i) => i < scope.len() && find_index(scope_view(*scope), name@, 0) == i as int,
            None => find_index(scope_view(*scope), name@, 0) == -1,
        },
{
    let mut i: usize = 0;
    while i < scope.len()
        invariant
            0 <= i <= scope.len(),
            find_index(scope_view(*scope), name@, 0) == find_index(scope_view(*scope), name@, i as int),
        decreases scope.len() - i,
    {
        if text_eq(&scope[i].name, name) {
            return Some(i);
        }
        i = i + 1;
    }
    None
}

fn scope_set(scope: &mut Vec<Entry>, name: Vec<char>, b: Binding)
    ensures
        scope_view(*final(scope)) == table_set(scope_view(*old(scope)), name@, b@),
{
    let ghost e = Entry { name, binding: b }@;
    match scope_find(scope, &name) {
        Some(i) => {
            scope.set(i, Entry { name, binding: b });
            assert(scope_view(*scope) =~= scope_view(*old(scope)).update(i as int, e));
        },
        None => {
            scope.push(Entry { name, binding: b });
            assert(scope_view(*scope) =~= scope_view(*old(scope)).push(e));
        },
    }
}

impl Interpreter {
    pub open spec fn view(&self) -> StateModel {
        StateModel {
            frames: self.frames@.map_values(|f: Vec<Entry>| scope_view(f)),
            functions: self.functions@.map_values(|d: FuncDef| d@),
            ret: match self.ret {
                Some(v) => Some(v@),
                None => None,
            },
            out: pieces_view(self.output@),
        }
    }

    /// An interpreter with one empty scope, no functions and no output.
    pub fn new() -> (r: Interpreter)
        ensures
            r@ == initial_state(),
    {
        let mut frames: Vec<Vec<Entry>> = Vec::new();
        let empty: Vec<Entry> = Vec::new();
        assert(scope_view(empty) =~= Seq::<(Seq<char>, BindingModel)>::empty());
        frames.push(empty);
        let r = Interpreter { frames, functions: Vec::new(), ret: None, output: Vec::new() };
        assert(r@.frames =~= seq![Seq::<(Seq<char>, BindingModel)>::empty()]);
        assert(r@.functions =~= Seq::<(Seq<char>, FuncModel)>::empty());
        assert(r@.out =~= Seq::<PieceModel>::empty());
        r
    }

    /// A copy of the binding a name has, searching the current scope first.
    fn lookup(&self, name: &Vec<char>) -> (r: Option<Binding>)
        ensures
            match r {
                Some(b) => lookup(self@.frames, name@) == Some(b@),
                None => lookup(self@.frames, name@) is None,
            },
    {
        let mut k = self.frames.len();
        assert(self@.frames.subrange(0, k as int) =~= self@.frames);
        while k > 0
            invariant
                k <= self.frames.len(),
                lookup(self@.frames, name@) == lookup(self@.frames.subrange(0, k as int), name@),
            decreases k,
        {
            let ghost fs = self@.frames.subrange(0, k as int);
            assert(fs.drop_last() =~= self@.frames.subrange(0, k - 1));
            assert(fs.last() == scope_view(self.frames@[k - 1]));
            let scope = &self.frames[k - 1];
            match scope_find(scope, name) {
                Some(i) => {
                    return Some(copy_binding(&scope[i].binding));
                },
                None => {},
            }
            k = k - 1;
        }
        None
    }

    /// Binds a name in the current scope.
    fn bind(&mut self, name: Vec<char>, b: Binding)
        ensures
            final(self)@ == bind(old(self)@, name@, b@),
    {
        match self.frames.pop() {
            None => {},
            Some(top) => {
                let mut top = top;
                scope_set(&mut top, name, b);
                self.frames.push(top);
                assert(self@.frames =~= old(self)@.frames.update(
                    old(self)@.frames.len() - 1,
                    table_set(old(self)@.frames.last(), name@, b@),
                ));
            },
        }
    }

    fn function_find(&self, name: &Vec<char>) -> (r: Option<usize>)
        ensures
            match r {
                Some(i) => i < self.functions.len() && find_index(self@.functions, name@, 0) == i as int,
                None => find_index(self@.functions, name@, 0) == -1,
            },
    {
        let mut i: usize = 0;
        while i < self.functions.len()
            invariant
                0 <= i <= self.functions.len(),
                find_index(self@.functions, name@, 0) == find_index(self@.functions, name@, i as int),
            decreases self.functions.len() - i,
        {
            if text_eq(&self.functions[i].name, name) {
                return Some(i);
            }
            i = i + 1;
        }
        None
    }

    /// Registers a function, replacing one of the same name.
    fn define(&mut self, name: Vec<char>, params: Vec<Node>, body: Vec<Node>)
        ensures
            final(self)@ == (StateModel {
                functions: table_set(
                    old(self)@.functions,
                    name@,
                    FuncModel { params: nodes_view(params@), body: nodes_view(body@) },
                ),
                ..old(self)@
            }),
    {
        let d = FuncDef { name, params, body };
        let ghost dv = d@;
        match self.function_find(&d.name) {
            Some(i) => {
                self.functions.set(i, d);
                assert(self@.functions =~= old(self)@.functions.update(i as int, dv));
            },
            None => {
                self.functions.push(d);
                assert(self@.functions =~= old(self)@.functions.push(dv));
            },
        }
    }
}

/// The scope of a call: each input parameter that is a plain name, bound to
/// its argument.
fn call_scope(params: &Vec<Node>, vals: &Vec<Value>) -> (r: Vec<Entry>)
    requires
        params.len() == vals.len(),
    ensures
        scope_view(r) == bind_params(nodes_view(params@), values_view(vals@)),
{
    let mut scope: Vec<Entry> = Vec::new();
    let mut i: usize = 0;
    proof {
        lemma_nodes_view(params@);
        lemma_values_view(vals@);
        assert(scope_view(scope) =~= Seq::<(Seq<char>, BindingModel)>::empty());
    }
    while i < params.len()
        invariant
            0 <= i <= params.len(),
            params.len() == vals.len(),
            nodes_view(params@).len() == params.len(),
            forall|k: int| 0 <= k < params.len() ==> #[trigger] nodes_view(params@)[k] == params@[k]@,
            values_view(vals@).len() == vals.len(),
            forall|k: int| 0 <= k < vals.len() ==> #[trigger] values_view(vals@)[k] == vals@[k]@,
            scope_view(scope) == bind_params(nodes_view(params@).subrange(0, i as int), values_view(vals@)),
        decreases params.len() - i,
    {
        let ghost ps = nodes_view(params@).subrange(0, i as int + 1);
        assert(ps.drop_last() =~= nodes_view(params@).subrange(0, i as int));
        assert(ps.last() == params@[i as int]@);
        match &params[i] {
            Node::Id(n) => {
                scope_set(&mut scope, copy_text(n), Binding::Val(copy_value(&vals[i])));
            },
            _ => {},
        }
        i = i + 1;
    }
    assert(nodes_view(params@).subrange(0, i as int) =~= nodes_view(params@));
    scope
}

proof fn lemma_eval_list_step(st: StateModel, s: Seq<NodeModel>, i: int, f: nat)
    requires
        0 <= i < s.len(),
    ensures
        eval_list(st, s.subrange(0, i + 1), f) == ({
            let (s1, r) = eval_list(st, s.subrange(0, i), f);
            match r {
                Err(err) => (s1, Err(err)),
                Ok(vals) => {
                    let (s2, r2) = eval(s1, s[i], f);
                    match r2 {
                        Err(err) => (s2, Err(err)),
                        Ok(v) => (s2, Ok(vals.push(v))),
                    }
                },
            }
        }),
{
    assert(s.subrange(0, i + 1).drop_last() =~= s.subrange(0, i));
}

proof fn lemma_exec_block_step(st: StateModel, s: Seq<NodeModel>, i: int, f: nat)
    requires
        0 <= i < s.len(),
    ensures
        exec_block(st, s.subrange(0, i + 1), f) == ({
            let (s1, r) = exec_block(st, s.subrange(0, i), f);
            match r {
                Err(err) => (s1, Err(err)),
                Ok(_) => if s1.ret is Some {
                    (s1, r)
                } else {
                    exec_stmt(s1, s[i], f)
                },
            }
        }),
{
    assert(s.subrange(0, i + 1).drop_last() =~= s.subrange(0, i));
}

proof fn lemma_run_stmts_step(st: StateModel, s: Seq<NodeModel>, i: int, f: nat)
    requires
        0 <= i < s.len(),
    ensures
        run_stmts(st, s.subrange(0, i + 1), f) == ({
            let (s1, r) = run_stmts(st, s.subrange(0, i), f);
            match r {
                Err(err) => (s1, Err(err)),
                Ok(_) => {
                    let (s2, r2) = exec_stmt(s1, s[i], f);
                    (StateModel { ret: None, ..s2 }, r2)
                },
            }
        }),
{
    assert(s.subrange(0, i + 1).drop_last() =~= s.subrange(0, i));
}

proof fn lemma_eval_list_stop(st: StateModel, s: Seq<NodeModel>, k: int, f: nat)
    requires
        0 <= k <= s.len(),
        eval_list(st, s.subrange(0, k), f).1 is Err,
    ensures
        eval_list(st, s, f) == eval_list(st, s.subrange(0, k), f),
    decreases s.len() - k,
{
    if k < s.len() {
        assert(s.subrange(0, k + 1).drop_last() =~= s.subrange(0, k));
        lemma_eval_list_stop(st, s, k + 1, f);
    } else {
        assert(s.subrange(0, k) =~= s);
    }
}

proof fn lemma_exec_block_stop(st: StateModel, s: Seq<NodeModel>, k: int, f: nat)
    requires
        0 <= k <= s.len(),
        exec_block(st, s.subrange(0, k), f).1 is Err || exec_block(st, s.subrange(0, k), f).0.ret is Some,
    ensures
        exec_block(st, s, f) == exec_block(st, s.subrange(0, k), f),
    decreases s.len() - k,
{
    if k < s.len() {
        assert(s.subrange(0, k + 1).drop_last() =~= s.subrange(0, k));
        lemma_exec_block_stop(st, s, k + 1, f);
    } else {
        assert(s.subrange(0, k) =~= s);
    }
}

proof fn lemma_run_stmts_stop(st: StateModel, s: Seq<NodeModel>, k: int, f: nat)
    requires
        0 <= k <= s.len(),
        run_stmts(st, s.subrange(0, k), f).1 is Err,
    ensures
        run_stmts(st, s, f) == run_stmts(st, s.subrange(0, k), f),
    decreases s.len() - k,
{
    if k < s.len() {
        assert(s.subrange(0, k + 1).drop_last() =~= s.subrange(0, k));
        lemma_run_stmts_stop(st, s, k + 1, f);
    } else {
        assert(s.subrange(0, k) =~= s);
    }
}

impl Interpreter {
    /// `!`, `-`, `+`, `++` and `--`.
    fn unary(&mut self, op: UnOp, operand: &Node) -> (r: Result<Value, RuntimeError>)
        ensures
            (final(self)@, value_result(r)) == unary_spec(old(self)@, op, operand@),
    {
        match op {
            UnOp::Not => match operand {
                Node::NoneLit => Ok(Value::Boolean(true)),
                Node::Bool(b) => Ok(Value::Boolean(!*b)),
                Node::Integer(v) => Ok(Value::Integer((-(*v as i64) - 1) as i32)),
                Node::List(items) => {
                    proof {
                        lemma_nodes_view(items@);
                    }
                    Ok(Value::Boolean(items.len() == 0))
                },
                _ => Err(RuntimeError::Unsupported(Feature::Unary(op))),
            },
            UnOp::Minus => match operand {
                Node::Integer(v) => if *v == i32::MIN {
                    Err(RuntimeError::Arithmetic(Fault::Overflow))
                } else {
                    Ok(Value::Integer(-*v))
                },
                _ => Err(RuntimeError::Unsupported(Feature::Unary(op))),
            },
            UnOp::Plus => Err(RuntimeError::Unsupported(Feature::Unary(op))),
            _ => {
                let delta: i64 = if op == UnOp::Increment { 1 } else { -1 };
                match operand {
                    Node::Id(n) => match self.lookup(n) {
                        Some(Binding::Val(Value::Integer(v))) => {
                            let nv = v as i64 + delta;
                            if nv < i32::MIN as i64 || nv > i32::MAX as i64 {
                                Err(RuntimeError::Arithmetic(Fault::Overflow))
                            } else {
                                let nvi = nv as i32;
                                self.bind(copy_text(n), Binding::Val(Value::Integer(nvi)));
                                Ok(Value::Integer(nvi))
                            }
                        },
                        Some(Binding::Val(Value::Float(x))) => {
                            let fop = if op == UnOp::Increment { FloatOp::Add } else { FloatOp::Sub };
                            let one = FloatNum::FromInt(1);
                            assert(one@ == FloatModel::FromInt(1));
                            let stepped = FloatNum::Arith(fop, Box::new(x), Box::new(one));
                            let result = copy_float(&stepped);
                            self.bind(copy_text(n), Binding::Val(Value::Float(stepped)));
                            Ok(Value::Float(result))
                        },
                        _ => Err(RuntimeError::Step(op)),
                    },
                    _ => Err(RuntimeError::Step(op)),
                }
            },
        }
    }

    /// Evaluates an expression with depth budget `f`.
    pub fn eval(&mut self, e: &Node, f: u64) -> (r: Result<Value, RuntimeError>)
        ensures
            (final(self)@, value_result(r)) == eval(old(self)@, e@, f as nat),
        decreases f, 0nat,
    {
        if f == 0 {
            return Err(RuntimeError::TooDeep);
        }
        match e {
            Node::Integer(v) => Ok(Value::Integer(*v)),
            Node::Float(t) => {
                let lit = FloatNum::Literal(copy_text(t));
                assert(lit@ == FloatModel::Literal(t@));
                Ok(Value::Float(lit))
            },
            Node::Bool(b) => Ok(Value::Boolean(*b)),
            Node::Str(t) => Ok(Value::Str(copy_text(t))),
            Node::NoneLit => Ok(Value::Nil),
            Node::List(items) => match self.eval_list(items, f - 1) {
                Ok(vals) => Ok(Value::List(vals)),
                Err(err) => Err(err),
            },
            Node::Id(name) => match self.lookup(name) {
                Some(Binding::Val(v)) => Ok(v),
                Some(Binding::Deferred(x)) => self.eval(&x, f - 1),
                _ => Err(RuntimeError::Name(copy_text(name))),
            },
            Node::Binary { left, op, right } => {
                let l = match self.eval(left, f - 1) {
                    Ok(v) => v,
                    Err(err) => return Err(err),
                };
                let r = match self.eval(right, f - 1) {
                    Ok(v) => v,
                    Err(err) => return Err(err),
                };
                binary(*op, l, r)
            },
            Node::Unary { operator, operand } => self.unary(*operator, operand),
            Node::Call { name, args } => match &**name {
                Node::Id(fname) => {
                    assert((**name)@ == NodeModel::Id(fname@));
                    let is_print = text_is(fname, &['p', 'r', 'i', 'n', 't']);
                    let is_println = text_is(fname, &['p', 'r', 'i', 'n', 't', 'l', 'n']);
                    if is_print || is_println {
                        let vals = match self.eval_list(args, f - 1) {
                            Ok(v) => v,
                            Err(err) => return Err(err),
                        };
                        self.print_values(&vals, is_println);
                        Ok(Value::Nil)
                    } else {
                        self.call(fname, args, f - 1)
                    }
                },
                _ => Err(RuntimeError::Unsupported(Feature::CallTarget)),
            },
            _ => Err(RuntimeError::Unsupported(Feature::Expression)),
        }
    }

    /// Appends the plain forms of the values, and a line feed for `println`.
    fn print_values(&mut self, vals: &Vec<Value>, newline: bool)
        ensures
            final(self)@ == (StateModel {
                out: old(self)@.out + display_all(values_view(vals@)) + if newline {
                    seq![PieceModel::Text(seq!['\n'])]
                } else {
                    Seq::empty()
                },
                ..old(self)@
            }),
    {
        let ghost s0 = self@;
        let mut i: usize = 0;
        proof {
            lemma_values_view(vals@);
            assert(values_view(vals@).subrange(0, 0) =~= Seq::<ValueModel>::empty());
            assert(s0.out + display_all(Seq::<ValueModel>::empty()) =~= s0.out);
        }
        while i < vals.len()
            invariant
                0 <= i <= vals.len(),
                values_view(vals@).len() == vals.len(),
                forall|k: int| 0 <= k < vals.len() ==> #[trigger] values_view(vals@)[k] == vals@[k]@,
                self@ == (StateModel {
                    out: s0.out + display_all(values_view(vals@).subrange(0, i as int)),
                    ..s0
                }),
            decreases vals.len() - i,
        {
            let ghost sub = values_view(vals@).subrange(0, i as int + 1);
            assert(sub.drop_last() =~= values_view(vals@).subrange(0, i as int));
            show(&vals[i], &mut self.output);
            i = i + 1;
            assert(self@.out =~= s0.out + display_all(values_view(vals@).subrange(0, i as int)));
        }
        assert(values_view(vals@).subrange(0, i as int) =~= values_view(vals@));
        if newline {
            let mut t: Vec<char> = Vec::new();
            t.push('\n');
            assert(t@ =~= seq!['\n']);
            let ghost before = self@.out;
            self.output.push(Piece::Text(t));
            assert(self@.out =~= before + seq![PieceModel::Text(seq!['\n'])]);
        } else {
            assert(self@.out =~= self@.out + Seq::<PieceModel>::empty());
        }
    }

    /// Calls a user function; `fname` is not a built-in.
    fn call(&mut self, fname: &Vec<char>, args: &Vec<Node>, f: u64) -> (r: Result<Value, RuntimeError>)
        requires
            fname@ != crate::semantics::print_word(),
            fname@ != crate::semantics::println_word(),
        ensures
            (final(self)@, value_result(r)) == eval(
                old(self)@,
                NodeModel::Call {
                    name: Box::new(NodeModel::Id(fname@)),
                    args: nodes_view(args@),
                },
                f as nat + 1,
            ),
        decreases f, 3nat,
    {
        let idx = match self.function_find(fname) {
            Some(i) => i,
            None => return Err(RuntimeError::Name(copy_text(fname))),
        };
        let params = copy_nodes(&self.functions[idx].params);
        let body = copy_nodes(&self.functions[idx].body);
        proof {
            lemma_nodes_view(params@);
            lemma_nodes_view(self.functions@[idx as int].params@);
        }
        let vals = match self.eval_list(args, f) {
            Ok(v) => v,
            Err(err) => return Err(err),
        };
        proof {
            lemma_values_view(vals@);
        }
        if vals.len() != params.len() {
            return Err(
                RuntimeError::Arity { name: copy_text(fname), expected: params.len(), found: vals.len() },
            );
        }
        let scope = call_scope(&params, &vals);
        let ghost s1 = self@;
        self.frames.push(scope);
        assert(self@.frames =~= s1.frames.push(bind_params(nodes_view(params@), values_view(vals@))));
        match self.exec_block(&body, f) {
            Err(err) => return Err(err),
            Ok(_) => {},
        }
        let result = match &self.ret {
            Some(v) => copy_value(v),
            None => Value::Nil,
        };
        let ghost s3 = self@;
        self.ret = None;
        let _ = self.frames.pop();
        assert(self@.frames =~= pop_frame(s3.frames));
        Ok(result)
    }

    /// Evaluates expressions left to right.
    fn eval_list(&mut self, items: &Vec<Node>, f: u64) -> (r: Result<Vec<Value>, RuntimeError>)
        ensures
            (final(self)@, values_result(r)) == eval_list(old(self)@, nodes_view(items@), f as nat),
        decreases f, 2nat,
    {
        let ghost s0 = self@;
        let mut vals: Vec<Value> = Vec::new();
        let mut i: usize = 0;
        proof {
            lemma_nodes_view(items@);
            assert(nodes_view(items@).subrange(0, 0) =~= Seq::<NodeModel>::empty());
            assert(values_view(vals@) =~= Seq::<ValueModel>::empty());
        }
        while i < items.len()
            invariant
                0 <= i <= items.len(),
                s0 == old(self)@,
                nodes_view(items@).len() == items.len(),
                forall|k: int| 0 <= k < items.len() ==> #[trigger] nodes_view(items@)[k] == items@[k]@,
                eval_list(s0, nodes_view(items@).subrange(0, i as int), f as nat) == (
                    self@,
                    Ok::<Seq<ValueModel>, ErrorModel>(values_view(vals@)),
                ),
            decreases items.len() - i,
        {
            proof {
                lemma_eval_list_step(s0, nodes_view(items@), i as int, f as nat);
            }
            match self.eval(&items[i], f) {
                Ok(v) => {
                    proof {
                        crate::value::lemma_values_view_push(vals@, v);
                    }
                    vals.push(v);
                },
                Err(err) => {
                    proof {
                        lemma_eval_list_stop(s0, nodes_view(items@), i as int + 1, f as nat);
                    }
                    return Err(err);
                },
            }
            i = i + 1;
        }
        assert(nodes_view(items@).subrange(0, i as int) =~= nodes_view(items@));
        Ok(vals)
    }

    /// Runs statements until one fails or a return value is set.
    fn exec_block(&mut self, stmts: &Vec<Node>, f: u64) -> (r: Result<(), RuntimeError>)
        ensures
            (final(self)@, unit_result(r)) == exec_block(old(self)@, nodes_view(stmts@), f as nat),
        decreases f, 2nat,
    {
        let ghost s0 = self@;
        let mut i: usize = 0;
        proof {
            lemma_nodes_view(stmts@);
            assert(nodes_view(stmts@).subrange(0, 0) =~= Seq::<NodeModel>::empty());
        }
        while i < stmts.len()
            invariant
                0 <= i <= stmts.len(),
                s0 == old(self)@,
                nodes_view(stmts@).len() == stmts.len(),
                forall|k: int| 0 <= k < stmts.len() ==> #[trigger] nodes_view(stmts@)[k] == stmts@[k]@,
                exec_block(s0, nodes_view(stmts@).subrange(0, i as int), f as nat) == (
                    self@,
                    Ok::<(), ErrorModel>(()),
                ),
            decreases stmts.len() - i,
        {
            if self.ret.is_some() {
                proof {
                    lemma_exec_block_stop(s0, nodes_view(stmts@), i as int, f as nat);
                }
                return Ok(());
            }
            proof {
                lemma_exec_block_step(s0, nodes_view(stmts@), i as int, f as nat);
            }
            match self.exec_stmt(&stmts[i], f) {
                Ok(_) => {},
                Err(err) => {
                    proof {
                        lemma_exec_block_stop(s0, nodes_view(stmts@), i as int + 1, f as nat);
                    }
                    return Err(err);
                },
            }
            i = i + 1;
        }
        assert(nodes_view(stmts@).subrange(0, i as int) =~= nodes_view(stmts@));
        Ok(())
    }

    /// Runs one statement with depth budget `f`.
    pub fn exec_stmt(&mut self, s: &Node, f: u64) -> (r: Result<(), RuntimeError>)
        ensures
            (final(self)@, unit_result(r)) == exec_stmt(old(self)@, s@, f as nat),
        decreases f, 0nat,
    {
        if f == 0 {
            return Err(RuntimeError::TooDeep);
        }
        match s {
            Node::Var { name, value } => match &**name {
                Node::Id(n) => {
                    assert((**name)@ == NodeModel::Id(n@));
                    let b = match value {
                        None => Binding::Unset,
                        Some(v) => initial_binding(v),
                    };
                    self.bind(copy_text(n), b);
                    Ok(())
                },
                _ => Err(RuntimeError::Unsupported(Feature::Statement)),
            },
            Node::Function { name, inputs, outputs, block } => match &**name {
                Node::Id(n) => {
                    assert((**name)@ == NodeModel::Id(n@));
                    let params = match inputs {
                        Some(ps) => copy_nodes(ps),
                        None => {
                            let v: Vec<Node> = Vec::new();
                            assert(nodes_view(v@) =~= Seq::<NodeModel>::empty());
                            v
                        },
                    };
                    let body = copy_nodes(block);
                    self.define(copy_text(n), params, body);
                    Ok(())
                },
                _ => Err(RuntimeError::Unsupported(Feature::Statement)),
            },
            Node::Return(items) => {
                proof {
                    lemma_nodes_view(items@);
                }
                if items.len() == 0 {
                    self.ret = Some(Value::Nil);
                    Ok(())
                } else if items.len() == 1 {
                    match self.eval(&items[0], f - 1) {
                        Err(err) => Err(err),
                        Ok(v) => {
                            self.ret = Some(v);
                            Ok(())
                        },
                    }
                } else {
                    match self.eval_list(items, f - 1) {
                        Err(err) => Err(err),
                        Ok(vals) => {
                            self.ret = Some(Value::List(vals));
                            Ok(())
                        },
                    }
                }
            },
            Node::If { .. } | Node::While { .. } | Node::For { .. } | Node::Match { .. }
            | Node::Class { .. } | Node::Parent { .. } | Node::Use(_) => Err(
                RuntimeError::Unsupported(Feature::Statement),
            ),
            _ => match self.eval(s, f - 1) {
                Err(err) => Err(err),
                Ok(_) => Ok(()),
            },
        }
    }

    /// Runs a program's top-level statements in order, stopping at the
    /// first error; a return value set at top level is dropped.
    pub fn run(&mut self, stmts: &Vec<Node>, f: u64) -> (r: Result<(), RuntimeError>)
        ensures
            (final(self)@, unit_result(r)) == run_stmts(old(self)@, nodes_view(stmts@), f as nat),
    {
        let ghost s0 = self@;
        let mut i: usize = 0;
        proof {
            lemma_nodes_view(stmts@);
            assert(nodes_view(stmts@).subrange(0, 0) =~= Seq::<NodeModel>::empty());
        }
        while i < stmts.len()
            invariant
                0 <= i <= stmts.len(),
                s0 == old(self)@,
                nodes_view(stmts@).len() == stmts.len(),
                forall|k: int| 0 <= k < stmts.len() ==> #[trigger] nodes_view(stmts@)[k] == stmts@[k]@,
                run_stmts(s0, nodes_view(stmts@).subrange(0, i as int), f as nat) == (
                    self@,
                    Ok::<(), ErrorModel>(()),
                ),
            decreases stmts.len() - i,
        {
            proof {
                lemma_run_stmts_step(s0, nodes_view(stmts@), i as int, f as nat);
            }
            let r = self.exec_stmt(&stmts[i], f);
            self.ret = None;
            match r {
                Ok(_) => {},
                Err(err) => {
                    proof {
                        lemma_run_stmts_stop(s0, nodes_view(stmts@), i as int + 1, f as nat);
                    }
                    return Err(err);
                },
            }
            i = i + 1;
        }
        assert(nodes_view(stmts@).subrange(0, i as int) =~= nodes_view(stmts@));
        Ok(())
    }
}

} // verus!
