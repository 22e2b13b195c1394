//! The syntax tree and its evaluation.

use vstd::prelude::*;
use crate::context::Context;
use crate::error::{outcome, RuntimeError, RuntimeErrorView};
use crate::float::{Facts, FloatFacts};
use crate::op::Op;
use crate::symbol_table::{declared, resolve, Scope};
use crate::types::Type;
use crate::variable::Variable;

verus! {

/// A node of the syntax tree.
#[derive(Debug, PartialEq, Eq)]
pub enum Node {
    /// A literal.
    Number(Type),
    /// A reference to a variable.
    GetVar(String),
    /// Logical not.
    NotOp(Box<Node>),
    /// Negation.
    UnaryOp(Box<Node>),
    /// A declaration: the name and the expression that gives its value.
    DeclareVar(String, Box<Node>),
    /// An operator between two expressions.
    BinOp(Box<Node>, Op, Box<Node>),
}

/// A syntax tree as a mathematical value.
pub enum Expr {
    Number(Type),
    GetVar(Seq<char>),
    NotOp(Box<Expr>),
    UnaryOp(Box<Expr>),
    DeclareVar(Seq<char>, Box<Expr>),
    BinOp(Box<Expr>, Op, Box<Expr>),
}

impl Node {
    /// The tree as a mathematical value.
    pub open spec fn tree(&self) -> Expr
        decreases self,
    {
        match self {
            Node::Number(value) => Expr::Number(*value),
            Node::GetVar(name) => Expr::GetVar(name@),
            Node::NotOp(node) => Expr::NotOp(Box::new(node.tree())),
            Node::UnaryOp(node) => Expr::UnaryOp(Box::new(node.tree())),
            Node::DeclareVar(name, node) => Expr::DeclareVar(name@, Box::new(node.tree())),
            Node::BinOp(left, op, right) => Expr::BinOp(
                Box::new(left.tree()),
                *op,
                Box::new(right.tree()),
            ),
        }
    }
}

impl View for Node {
    type V = Expr;

    open spec fn view(&self) -> Expr {
        self.tree()
    }
}

/// What evaluation gives: a value or an error, and the scopes as it leaves
/// them.
pub struct Evaluated {
    pub result: Result<Type, RuntimeErrorView>,
    pub scopes: Seq<Scope>,
}

/// Logical not of a value.
pub open spec fn logical_not(value: Type) -> Result<Type, RuntimeErrorView> {
    match value {
        Type::Bool(b) => Ok(Type::Bool(!b)),
        _ => Err(RuntimeErrorView::NotABool(value)),
    }
}

/// `then` applied to the value of `first`, in the scopes that `first` left;
/// or the error of `first`.
pub open spec fn and_then(first: Evaluated, then: spec_fn(Type) -> Result<Type, RuntimeErrorView>)
    -> Evaluated {
    match first.result {
        Ok(value) => Evaluated { result: then(value), scopes: first.scopes },
        Err(_) => first,
    }
}

/// The evaluation of `tree` in `scopes`. A literal is its value. A name is
/// looked up from the innermost scope outwards. A declaration evaluates its
/// expression once, binds the name in the innermost scope and gives no
/// value. An operator evaluates its left operand, then its right one in the
/// scopes that the left one left, then applies. The first error ends the
/// evaluation; what was declared before it stays declared.
pub open spec fn eval(tree: Expr, scopes: Seq<Scope>, facts: Facts) -> Evaluated
    decreases tree,
{
    match tree {
        Expr::Number(value) => Evaluated { result: Ok(value), scopes },
        Expr::GetVar(name) => Evaluated {
            result: match resolve(scopes, name) {
                Some(value) => Ok(value),
                None => Err(RuntimeErrorView::NotFound(name)),
            },
            scopes,
        },
        Expr::UnaryOp(inner) => and_then(eval(*inner, scopes, facts), |v: Type| v.negation()),
        Expr::NotOp(inner) => and_then(eval(*inner, scopes, facts), |v: Type| logical_not(v)),
        Expr::DeclareVar(name, value) => {
            let given = eval(*value, scopes, facts);
            match given.result {
                Ok(v) => Evaluated { result: Ok(Type::Unit), scopes: declared(given.scopes, name, v) },
                Err(_) => given,
            }
        },
        Expr::BinOp(left, op, right) => {
            let first = eval(*left, scopes, facts);
            match first.result {
                Ok(a) => and_then(
                    eval(*right, first.scopes, facts),
                    |b: Type| op.applied(a, b, facts),
                ),
                Err(_) => first,
            }
        },
    }
}

impl Node {
    /// A copy of the tree.
    pub fn duplicate(&self) -> (copy: Node)
        ensures
            copy@ == self@,
        decreases self,
    {
        match self {
            Node::Number(value) => Node::Number(*value),
            Node::GetVar(name) => Node::GetVar(name.clone()),
            Node::NotOp(node) => Node::NotOp(Box::new(node.duplicate())),
            Node::UnaryOp(node) => Node::UnaryOp(Box::new(node.duplicate())),
            Node::DeclareVar(name, node) => Node::DeclareVar(
                name.clone(),
                Box::new(node.duplicate()),
            ),
            Node::BinOp(left, op, right) => Node::BinOp(
                Box::new(left.duplicate()),
                *op,
                Box::new(right.duplicate()),
            ),
        }
    }

    /// Evaluates the tree in `context`. Where evaluation reaches a float
    /// operation whose result `facts` lacks, it stops with the request for
    /// it.
    pub fn get_value(&self, context: &mut Context, facts: &FloatFacts) -> (r: Result<
        Type,
        RuntimeError,
    >)
        requires
            old(context).wf(),
        ensures
            final(context).wf(),
            final(context).frames() == old(context).frames(),
            final(context).frame() == old(context).frame(),
            final(context).outer() == old(context).outer(),
            outcome(r) == eval(self@, old(context).scopes(), facts@).result,
            final(context).scopes() == eval(self@, old(context).scopes(), facts@).scopes,
        decreases self, 0int,
    {
        match self {
            Node::Number(value) => Ok(*value),
            Node::UnaryOp(node) => match node.get_value(context, facts) {
                Ok(value) => value.inverted(),
                Err(e) => Err(e),
            },
            Node::DeclareVar(name, value) => {
                let variable = match Variable::new(name.as_str(), value, context, facts) {
                    Ok(variable) => variable,
                    Err(e) => {
                        return Err(e);
                    },
                };
                context.get_symbol_table_mut().declare(variable);
                Ok(Type::Unit)
            },
            Node::BinOp(left, op, right) => {
                let a = match left.get_value(context, facts) {
                    Ok(a) => a,
                    Err(e) => {
                        return Err(e);
                    },
                };
                let b = match right.get_value(context, facts) {
                    Ok(b) => b,
                    Err(e) => {
                        return Err(e);
                    },
                };
                op.execute(&a, &b, facts)
            },
            Node::GetVar(name) => {
                match context.get_symbol_table().get_from_tree(name.as_str()) {
                    Ok(variable) => Ok(*variable.get_value()),
                    Err(e) => Err(e),
                }
            },
            Node::NotOp(node) => {
                let value = match node.get_value(context, facts) {
                    Ok(value) => value,
                    Err(e) => {
                        return Err(e);
                    },
                };
                match value {
                    Type::Bool(b) => Ok(Type::Bool(!b)),
                    _ => Err(RuntimeError::NotABool(value)),
                }
            },
        }
    }
}

} // verus!
