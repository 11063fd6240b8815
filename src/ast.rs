//! The syntax tree that the parser builds and the interpreter walks.
use vstd::prelude::*;
use crate::ops::{BinOp, UnOp};
use crate::value::copy_text;

verus! {

/// A node of the syntax tree. Statements and expressions share one type, as
/// some forms (a call, `i++;`) are both.
#[derive(Debug)]
pub enum Node {
    Integer(i32),
    /// A float literal, as written.
    Float(Vec<char>),
    Str(Vec<char>),
    /// The literal `None`.
    NoneLit,
    Id(Vec<char>),
    Bool(bool),
    /// `let name [= value];`
    Var { name: Box<Node>, value: Option<Box<Node>> },
    /// `object.property`
    Property { object: Box<Node>, property: Box<Node> },
    /// `object[index]`
    Index { object: Box<Node>, index: Box<Node> },
    /// A keyword standing where an expression was expected.
    Flow(Vec<char>),
    Unary { operator: UnOp, operand: Box<Node> },
    Binary { left: Box<Node>, op: BinOp, right: Box<Node> },
    /// `[e, e, ...]`
    List(Vec<Node>),
    If { condition: Box<Node>, then_block: Vec<Node>, else_block: Option<Vec<Node>> },
    Match { subject: Box<Node>, cases: Vec<Node> },
    /// One arm of a `match`: `condition => { block }`.
    Case { condition: Box<Node>, block: Vec<Node> },
    /// The condition of the `.. => { block }` arm.
    Default,
    While { condition: Box<Node>, body: Vec<Node> },
    For { vars: Vec<Node>, object: Box<Node>, body: Vec<Node> },
    /// `fn name(inputs : outputs) { block }`
    Function {
        name: Box<Node>,
        inputs: Option<Vec<Node>>,
        outputs: Option<Vec<Node>>,
        block: Vec<Node>,
    },
    Call { name: Box<Node>, args: Vec<Node> },
    /// `rn e, e, ...;`
    Return(Vec<Node>),
    Class { name: Box<Node>, parents: Option<Vec<Node>>, block: Vec<Node> },
    Parent { name: Box<Node>, args: Vec<Node> },
    Use(Vec<Node>),
}

/// The mathematical form of [`Node`].
pub enum NodeModel {
    Integer(i32),
    Float(Seq<char>),
    Str(Seq<char>),
    NoneLit,
    Id(Seq<char>),
    Bool(bool),
    Var { name: Box<NodeModel>, value: Option<Box<NodeModel>> },
    Property { object: Box<NodeModel>, property: Box<NodeModel> },
    Index { object: Box<NodeModel>, index: Box<NodeModel> },
    Flow(Seq<char>),
    Unary { operator: UnOp, operand: Box<NodeModel> },
    Binary { left: Box<NodeModel>, op: BinOp, right: Box<NodeModel> },
    List(Seq<NodeModel>),
    If {
        condition: Box<NodeModel>,
        then_block: Seq<NodeModel>,
        else_block: Option<Seq<NodeModel>>,
    },
    Match { subject: Box<NodeModel>, cases: Seq<NodeModel> },
    Case { condition: Box<NodeModel>, block: Seq<NodeModel> },
    Default,
    While { condition: Box<NodeModel>, body: Seq<NodeModel> },
    For { vars: Seq<NodeModel>, object: Box<NodeModel>, body: Seq<NodeModel> },
    Function {
        name: Box<NodeModel>,
        inputs: Option<Seq<NodeModel>>,
        outputs: Option<Seq<NodeModel>>,
        block: Seq<NodeModel>,
    },
    Call { name: Box<NodeModel>, args: Seq<NodeModel> },
    Return(Seq<NodeModel>),
    Class { name: Box<NodeModel>, parents: Option<Seq<NodeModel>>, block: Seq<NodeModel> },
    Parent { name: Box<NodeModel>, args: Seq<NodeModel> },
    Use(Seq<NodeModel>),
}

impl Node {
    pub open spec fn view(&self) -> NodeModel
        decreases self,
    {
        match self {
            Node::Integer(v) => NodeModel::Integer(*v),
            Node::Float(t) => NodeModel::Float(t@),
            Node::Str(t) => NodeModel::Str(t@),
            Node::NoneLit => NodeModel::NoneLit,
            Node::Id(t) => NodeModel::Id(t@),
            Node::Bool(b) => NodeModel::Bool(*b),
            Node::Var { name, value } => NodeModel::Var {
                name: Box::new((**name).view()),
                value: match value {
                    Some(v) => Some(Box::new((**v).view())),
                    None => None,
                },
            },
            Node::Property { object, property } => NodeModel::Property {
                object: Box::new((**object).view()),
                property: Box::new((**property).view()),
            },
            Node::Index { object, index } => NodeModel::Index {
                object: Box::new((**object).view()),
                index: Box::new((**index).view()),
            },
            Node::Flow(t) => NodeModel::Flow(t@),
            Node::Unary { operator, operand } => NodeModel::Unary {
                operator: *operator,
                operand: Box::new((**operand).view()),
            },
            Node::Binary { left, op, right } => NodeModel::Binary {
                left: Box::new((**left).view()),
                op: *op,
                right: Box::new((**right).view()),
            },
            Node::List(items) => NodeModel::List(nodes_view(items@)),
            Node::If { condition, then_block, else_block } => NodeModel::If {
                condition: Box::new((**condition).view()),
                then_block: nodes_view(then_block@),
                else_block: match else_block {
                    Some(b) => Some(nodes_view(b@)),
                    None => None,
                },
            },
            Node::Match { subject, cases } => NodeModel::Match {
                subject: Box::new((**subject).view()),
                cases: nodes_view(cases@),
            },
            Node::Case { condition, block } => NodeModel::Case {
                condition: Box::new((**condition).view()),
                block: nodes_view(block@),
            },
            Node::Default => NodeModel::Default,
            Node::While { condition, body } => NodeModel::While {
                condition: Box::new((**condition).view()),
                body: nodes_view(body@),
            },
            Node::For { vars, object, body } => NodeModel::For {
                vars: nodes_view(vars@),
                object: Box::new((**object).view()),
                body: nodes_view(body@),
            },
            Node::Function { name, inputs, outputs, block } => NodeModel::Function {
                name: Box::new((**name).view()),
                inputs: match inputs {
                    Some(b) => Some(nodes_view(b@)),
                    None => None,
                },
                outputs: match outputs {
                    Some(b) => Some(nodes_view(b@)),
                    None => None,
                },
                block: nodes_view(block@),
            },
            Node::Call { name, args } => NodeModel::Call {
                name: Box::new((**name).view()),
                args: nodes_view(args@),
            },
            Node::Return(items) => NodeModel::Return(nodes_view(items@)),
            Node::Class { name, parents, block } => NodeModel::Class {
                name: Box::new((**name).view()),
                parents: match parents {
                    Some(b) => Some(nodes_view(b@)),
                    None => None,
                },
                block: nodes_view(block@),
            },
            Node::Parent { name, args } => NodeModel::Parent {
                name: Box::new((**name).view()),
                args: nodes_view(args@),
            },
            Node::Use(items) => NodeModel::Use(nodes_view(items@)),
        }
    }
}

pub open spec fn nodes_view(s: Seq<Node>) -> Seq<NodeModel>
    decreases s,
{
    if s.len() == 0 {
        Seq::empty()
    } else {
        nodes_view(s.drop_last()).push(s.last().view())
    }
}

pub proof fn lemma_nodes_view(s: Seq<Node>)
    ensures
        nodes_view(s).len() == s.len(),
        forall|i: int| 0 <= i < s.len() ==> #[trigger] nodes_view(s)[i] == s[i]@,
    decreases s.len(),
{
    if s.len() > 0 {
        lemma_nodes_view(s.drop_last());
    }
}

pub proof fn lemma_nodes_view_push(s: Seq<Node>, n: Node)
    ensures
        nodes_view(s.push(n)) == nodes_view(s).push(n@),
{
    assert(s.push(n).drop_last() =~= s);
}

/// A copy of a list of nodes.
pub fn copy_nodes(v: &Vec<Node>) -> (r: Vec<Node>)
    ensures
        nodes_view(r@) == nodes_view(v@),
    decreases v, 0nat,
{
    let mut out: Vec<Node> = Vec::new();
    let mut i: usize = 0;
    proof {
        lemma_nodes_view(v@);
    }
    while i < v.len()
        invariant
            0 <= i <= v.len(),
            nodes_view(out@) == nodes_view(v@.subrange(0, i as int)),
        decreases v.len() - i,
    {
        proof {
            assert(decreases_to!(*v => v@));
            assert(decreases_to!(v@ => v@[i as int]));
        }
        let c = copy_node(&v[i]);
        proof {
            lemma_nodes_view_push(out@, c);
            assert(v@.subrange(0, i as int + 1) =~= v@.subrange(0, i as int).push(v@[i as int]));
            lemma_nodes_view_push(v@.subrange(0, i as int), v@[i as int]);
        }
        out.push(c);
        i = i + 1;
    }
    assert(v@.subrange(0, i as int) =~= v@);
    out
}

fn copy_opt_nodes(o: &Option<Vec<Node>>) -> (r: Option<Vec<Node>>)
    ensures
        match (r, *o) {
            (Some(a), Some(b)) => nodes_view(a@) == nodes_view(b@),
            (None, None) => true,
            _ => false,
        },
    decreases o, 1nat,
{
    match o {
        Some(v) => Some(copy_nodes(v)),
        None => None,
    }
}

/// A copy of a node and everything below it.
pub fn copy_node(n: &Node) -> (r: Node)
    ensures
        r@ == n@,
    decreases n, 2nat,
{
    match n {
        Node::Integer(v) => Node::Integer(*v),
        Node::Float(t) => Node::Float(copy_text(t)),
        Node::Str(t) => Node::Str(copy_text(t)),
        Node::NoneLit => Node::NoneLit,
        Node::Id(t) => Node::Id(copy_text(t)),
        Node::Bool(b) => Node::Bool(*b),
        Node::Var { name, value } => {
            let value2 = match value {
                Some(v) => Some(Box::new(copy_node(v))),
                None => None,
            };
            Node::Var { name: Box::new(copy_node(name)), value: value2 }
        },
        Node::Property { object, property } => Node::Property {
            object: Box::new(copy_node(object)),
            property: Box::new(copy_node(property)),
        },
        Node::Index { object, index } => Node::Index {
            object: Box::new(copy_node(object)),
            index: Box::new(copy_node(index)),
        },
        Node::Flow(t) => Node::Flow(copy_text(t)),
        Node::Unary { operator, operand } => Node::Unary {
            operator: *operator,
            operand: Box::new(copy_node(operand)),
        },
        Node::Binary { left, op, right } => Node::Binary {
            left: Box::new(copy_node(left)),
            op: *op,
            right: Box::new(copy_node(right)),
        },
        Node::List(items) => Node::List(copy_nodes(items)),
        Node::If { condition, then_block, else_block } => Node::If {
            condition: Box::new(copy_node(condition)),
            then_block: copy_nodes(then_block),
            else_block: copy_opt_nodes(else_block),
        },
        Node::Match { subject, cases } => Node::Match {
            subject: Box::new(copy_node(subject)),
            cases: copy_nodes(cases),
        },
        Node::Case { condition, block } => Node::Case {
            condition: Box::new(copy_node(condition)),
            block: copy_nodes(block),
        },
        Node::Default => Node::Default,
        Node::While { condition, body } => Node::While {
            condition: Box::new(copy_node(condition)),
            body: copy_nodes(body),
        },
        Node::For { vars, object, body } => Node::For {
            vars: copy_nodes(vars),
            object: Box::new(copy_node(object)),
            body: copy_nodes(body),
        },
        Node::Function { name, inputs, outputs, block } => Node::Function {
            name: Box::new(copy_node(name)),
            inputs: copy_opt_nodes(inputs),
            outputs: copy_opt_nodes(outputs),
            block: copy_nodes(block),
        },
        Node::Call { name, args } => Node::Call {
            name: Box::new(copy_node(name)),
            args: copy_nodes(args),
        },
        Node::Return(items) => Node::Return(copy_nodes(items)),
        Node::Class { name, parents, block } => Node::Class {
            name: Box::new(copy_node(name)),
            parents: copy_opt_nodes(parents),
            block: copy_nodes(block),
        },
        Node::Parent { name, args } => Node::Parent {
            name: Box::new(copy_node(name)),
            args: copy_nodes(args),
        },
        Node::Use(items) => Node::Use(copy_nodes(items)),
    }
}

} // verus!
