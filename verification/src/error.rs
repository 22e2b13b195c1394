//! What can go wrong while a tree is evaluated.

use vstd::prelude::*;
use crate::float::{Facts, FloatFacts, FloatQuery, FloatQueryView};
use crate::op::Op;
use crate::text::push_text;
use crate::types::Type;

verus! {

/// Why an evaluation gave no value.
#[derive(Clone, Debug, PartialEq, Eq)]
pub enum RuntimeError {
    /// No scope of the chain holds the name.
    NotFound(String),
    /// Negation of a value that is no number and no boolean.
    CantInvert(Type),
    /// The operands of the operator are not of one fitting type.
    Mismatch(Op, Type, Type),
    /// Division or remainder by zero.
    ZeroDivisor(Op, Type, Type),
    /// The operator has no meaning on two operands.
    Unsupported(Op, Type, Type),
    /// Logical not of a value that is no boolean.
    NotABool(Type),
    /// The integer result does not fit in 128 bits.
    Overflow(Op, Type, Type),
    /// An integer exponent below zero or above `u32::MAX`.
    BadExponent(Type, Type),
    /// Evaluation stopped at a float operation of which the table of float
    /// facts has no result yet.
    AskFloat(Op, u64, u64),
}

pub enum RuntimeErrorView {
    NotFound(Seq<char>),
    CantInvert(Type),
    Mismatch(Op, Type, Type),
    ZeroDivisor(Op, Type, Type),
    Unsupported(Op, Type, Type),
    NotABool(Type),
    Overflow(Op, Type, Type),
    BadExponent(Type, Type),
    AskFloat(Op, u64, u64),
}

impl View for RuntimeError {
    type V = RuntimeErrorView;

    open spec fn view(&self) -> RuntimeErrorView {
        match self {
            RuntimeError::NotFound(name) => RuntimeErrorView::NotFound(name@),
            RuntimeError::CantInvert(v) => RuntimeErrorView::CantInvert(*v),
            RuntimeError::Mismatch(op, a, b) => RuntimeErrorView::Mismatch(*op, *a, *b),
            RuntimeError::ZeroDivisor(op, a, b) => RuntimeErrorView::ZeroDivisor(*op, *a, *b),
            RuntimeError::Unsupported(op, a, b) => RuntimeErrorView::Unsupported(*op, *a, *b),
            RuntimeError::NotABool(v) => RuntimeErrorView::NotABool(*v),
            RuntimeError::Overflow(op, a, b) => RuntimeErrorView::Overflow(*op, *a, *b),
            RuntimeError::BadExponent(a, b) => RuntimeErrorView::BadExponent(*a, *b),
            RuntimeError::AskFloat(op, a, b) => RuntimeErrorView::AskFloat(*op, *a, *b),
        }
    }
}

/// The view of a result whose error is a [`RuntimeError`].
pub open spec fn outcome(r: Result<Type, RuntimeError>) -> Result<Type, RuntimeErrorView> {
    match r {
        Ok(v) => Ok(v),
        Err(e) => Err(e@),
    }
}

/// The word for an operator in a message about mismatched operands.
pub open spec fn operation_name(op: Op) -> Seq<char> {
    match op {
        Op::Add => "add"@,
        Op::Sub => "subtract"@,
        Op::Devd => "devide"@,
        Op::Mult => "multiply"@,
        Op::Pow => "power"@,
        Op::Remain => "remainder"@,
        Op::Eq => "equals"@,
        Op::NE => "equals"@,
        Op::And => "and"@,
        Op::Or => "or"@,
        _ => op.symbol(),
    }
}

fn operation_word(op: Op) -> (s: String)
    ensures
        s@ == operation_name(op),
{
    match op {
        Op::Add => String::from_str("add"),
        Op::Sub => String::from_str("subtract"),
        Op::Devd => String::from_str("devide"),
        Op::Mult => String::from_str("multiply"),
        Op::Pow => String::from_str("power"),
        Op::Remain => String::from_str("remainder"),
        Op::Eq => String::from_str("equals"),
        Op::NE => String::from_str("equals"),
        Op::And => String::from_str("and"),
        Op::Or => String::from_str("or"),
        _ => op.to_string(),
    }
}

/// `head`, then the printed forms of `a` and `b` with `middle` between them,
/// then `tail`; or the first float among `a` and `b` whose printed form
/// `facts` lacks.
pub open spec fn around_two(
    head: Seq<char>,
    a: Type,
    middle: Seq<char>,
    b: Type,
    tail: Seq<char>,
    facts: Facts,
) -> Result<Seq<char>, FloatQueryView> {
    match a.rendering(facts) {
        Err(q) => Err(q),
        Ok(left) => match b.rendering(facts) {
            Err(q) => Err(q),
            Ok(right) => Ok(head + left + middle + right + tail),
        },
    }
}

impl RuntimeErrorView {
    /// The message of the error, or the float whose printed form `facts` lacks.
    pub open spec fn message(self, facts: Facts) -> Result<Seq<char>, FloatQueryView> {
        match self {
            RuntimeErrorView::NotFound(name) => Ok("there isn't variable with name "@ + name),
            RuntimeErrorView::CantInvert(v) => match v.rendering(facts) {
                Ok(t) => Ok("can't invert "@ + t),
                Err(q) => Err(q),
            },
            RuntimeErrorView::Mismatch(op, a, b) => around_two(
                "can't execute "@ + operation_name(op) + " operation on "@,
                a,
                " and "@,
                b,
                ", the types must match"@,
                facts,
            ),
            RuntimeErrorView::ZeroDivisor(op, a, b) => around_two(
                if op == Op::Remain {
                    "can't take the remainder of "@
                } else {
                    "can't devide "@
                },
                a,
                " by zero ("@,
                b,
                ")"@,
                facts,
            ),
            RuntimeErrorView::Unsupported(op, a, b) => around_two(
                "can't execute "@ + op.symbol() + " on "@,
                a,
                " and "@,
                b,
                Seq::empty(),
                facts,
            ),
            RuntimeErrorView::NotABool(v) => match v.rendering(facts) {
                Ok(t) => Ok("can't execute not on not a bool type "@ + t),
                Err(q) => Err(q),
            },
            RuntimeErrorView::Overflow(op, a, b) => around_two(
                "can't execute "@ + operation_name(op) + " operation on "@,
                a,
                " and "@,
                b,
                ", the result is out of range"@,
                facts,
            ),
            RuntimeErrorView::BadExponent(a, b) => around_two(
                "can't raise "@,
                a,
                " to the power "@,
                b,
                ", the exponent is out of range"@,
                facts,
            ),
            RuntimeErrorView::AskFloat(op, a, b) => around_two(
                "can't execute "@ + operation_name(op) + " operation on "@,
                Type::Float(a),
                " and "@,
                Type::Float(b),
                ", the result is not known yet"@,
                facts,
            ),
        }
    }
}

fn write_around_two(
    head: String,
    a: &Type,
    middle: &str,
    b: &Type,
    tail: &str,
    facts: &FloatFacts,
) -> (r: Result<String, FloatQuery>)
    ensures
        match r {
            Ok(s) => around_two(head@, *a, middle@, *b, tail@, facts@) == Ok::<
                Seq<char>,
                FloatQueryView,
            >(s@),
            Err(q) => around_two(head@, *a, middle@, *b, tail@, facts@) == Err::<
                Seq<char>,
                FloatQueryView,
            >(q@),
        },
{
    let left = match a.to_string(facts) {
        Ok(t) => t,
        Err(q) => {
            return Err(q);
        },
    };
    let right = match b.to_string(facts) {
        Ok(t) => t,
        Err(q) => {
            return Err(q);
        },
    };
    let mut s = head;
    push_text(&mut s, left.as_str());
    push_text(&mut s, middle);
    push_text(&mut s, right.as_str());
    push_text(&mut s, tail);
    Ok(s)
}

impl RuntimeError {
    /// The float operation that the host is asked to perform, where the error
    /// is such a request.
    pub fn query(&self) -> (q: Option<FloatQuery>)
        ensures
            match q {
                Some(q) => self@ matches RuntimeErrorView::AskFloat(op, a, b) && q@
                    == FloatQueryView::Binary(op, a, b),
                None => !(self@ is AskFloat),
            },
    {
        match self {
            RuntimeError::AskFloat(op, a, b) => Some(FloatQuery::Binary(*op, *a, *b)),
            _ => None,
        }
    }

    /// The message of the error. Where it names a float whose printed form
    /// `facts` lacks, the request for that form is returned in its place.
    pub fn message(&self, facts: &FloatFacts) -> (r: Result<String, FloatQuery>)
        ensures
            match r {
                Ok(s) => self@.message(facts@) == Ok::<Seq<char>, FloatQueryView>(s@),
                Err(q) => self@.message(facts@) == Err::<Seq<char>, FloatQueryView>(q@),
            },
    {
        match self {
            RuntimeError::NotFound(name) => {
                let mut s = String::from_str("there isn't variable with name ");
                push_text(&mut s, name.as_str());
                Ok(s)
            },
            RuntimeError::CantInvert(v) => {
                match v.to_string(facts) {
                    Ok(t) => {
                        let mut s = String::from_str("can't invert ");
                        push_text(&mut s, t.as_str());
                        Ok(s)
                    },
                    Err(q) => Err(q),
                }
            },
            RuntimeError::Mismatch(op, a, b) => {
                let mut head = String::from_str("can't execute ");
                push_text(&mut head, operation_word(*op).as_str());
                push_text(&mut head, " operation on ");
                write_around_two(head, a, " and ", b, ", the types must match", facts)
            },
            RuntimeError::ZeroDivisor(op, a, b) => {
                let head = match op {
                    Op::Remain => String::from_str("can't take the remainder of "),
                    _ => String::from_str("can't devide "),
                };
                write_around_two(head, a, " by zero (", b, ")", facts)
            },
            RuntimeError::Unsupported(op, a, b) => {
                let mut head = String::from_str("can't execute ");
                push_text(&mut head, op.to_string().as_str());
                push_text(&mut head, " on ");
                let r = write_around_two(head, a, " and ", b, "", facts);
                proof {
                    reveal_strlit("");
                    assert(""@ =~= Seq::<char>::empty());
                }
                r
            },
            RuntimeError::NotABool(v) => {
                match v.to_string(facts) {
                    Ok(t) => {
                        let mut s = String::from_str("can't execute not on not a bool type ");
                        push_text(&mut s, t.as_str());
                        Ok(s)
                    },
                    Err(q) => Err(q),
                }
            },
            RuntimeError::Overflow(op, a, b) => {
                let mut head = String::from_str("can't execute ");
                push_text(&mut head, operation_word(*op).as_str());
                push_text(&mut head, " operation on ");
                write_around_two(head, a, " and ", b, ", the result is out of range", facts)
            },
            RuntimeError::BadExponent(a, b) => {
                let head = String::from_str("can't raise ");
                write_around_two(
                    head,
                    a,
                    " to the power ",
                    b,
                    ", the exponent is out of range",
                    facts,
                )
            },
            RuntimeError::AskFloat(op, a, b) => {
                let mut head = String::from_str("can't execute ");
                push_text(&mut head, operation_word(*op).as_str());
                push_text(&mut head, " operation on ");
                write_around_two(
                    head,
                    &Type::Float(*a),
                    " and ",
                    &Type::Float(*b),
                    ", the result is not known yet",
                    facts,
                )
            },
        }
    }
}

} // verus!
