//! Operators.

use vstd::prelude::*;
use crate::error::{outcome, RuntimeError, RuntimeErrorView};
use crate::float::{Facts, FloatFacts};
use crate::types::{arithmetic, connective, division, equality, Type};

verus! {

/// The operators of the language.
#[derive(Clone, Copy, PartialEq, Eq, Structural, Debug)]
pub enum Op {
    Add,
    Sub,
    Devd,
    Mult,
    Pow,
    Remain,
    Not,
    NE,
    Eq,
    LT,
    LTE,
    GT,
    GTE,
    And,
    Or,
}

impl Op {
    /// The operator as it is written in source text.
    pub open spec fn symbol(self) -> Seq<char> {
        match self {
            Op::Add => seq!['+'],
            Op::Sub => seq!['-'],
            Op::Devd => seq!['/'],
            Op::Mult => seq!['*'],
            Op::Pow => seq!['^'],
            Op::Remain => seq!['%'],
            Op::Eq => seq!['=', '='],
            Op::Not => seq!['!'],
            Op::NE => seq!['!', '='],
            Op::LT => seq!['<'],
            Op::LTE => seq!['<', '='],
            Op::GT => seq!['>'],
            Op::GTE => seq!['>', '='],
            Op::And => seq!['&', '&'],
            Op::Or => seq!['|', '|'],
        }
    }

    /// Whether the operator compares its operands: `==`, `!=`, `<`, `<=`,
    /// `>`, `>=`.
    pub open spec fn is_comparison(self) -> bool {
        self == Op::Eq || self == Op::NE || self == Op::LT || self == Op::LTE || self == Op::GT
            || self == Op::GTE
    }

    /// Whether the operator is one of `+ - / * ^ %`.
    pub open spec fn is_arithmetic(self) -> bool {
        self == Op::Add || self == Op::Sub || self == Op::Devd || self == Op::Mult || self
            == Op::Pow || self == Op::Remain
    }

    /// The operator applied to two values. The ordering operators `<`, `<=`,
    /// `>`, `>=` have no meaning yet, and `!` takes one operand: those are
    /// refused.
    pub open spec fn applied(self, a: Type, b: Type, facts: Facts) -> Result<
        Type,
        RuntimeErrorView,
    > {
        match self {
            Op::Add | Op::Sub | Op::Mult | Op::Pow => arithmetic(self, a, b, facts),
            Op::Devd | Op::Remain => division(self, a, b, facts),
            Op::And | Op::Or => connective(self, a, b),
            Op::Eq => equality(a, b),
            Op::NE => match equality(a, b) {
                Ok(v) => v.negation(),
                Err(e) => Err(e),
            },
            _ => Err(RuntimeErrorView::Unsupported(self, a, b)),
        }
    }

    /// Applies the operator to two values.
    pub fn execute(&self, a: &Type, b: &Type, facts: &FloatFacts) -> (r: Result<
        Type,
        RuntimeError,
    >)
        ensures
            outcome(r) == self.applied(*a, *b, facts@),
    {
        match self {
            Op::Add => a.add(b, facts),
            Op::Sub => a.sub(b, facts),
            Op::Devd => a.devd(b, facts),
            Op::Mult => a.mult(b, facts),
            Op::Pow => a.pow(b, facts),
            Op::Remain => a.remain(b, facts),
            Op::And => a.and(b),
            Op::Or => a.or(b),
            Op::Eq => a.eq(b),
            Op::NE => match a.eq(b) {
                Ok(v) => v.inverted(),
                Err(e) => Err(e),
            },
            _ => Err(RuntimeError::Unsupported(*self, *a, *b)),
        }
    }

    /// Whether the operator compares its operands.
    pub fn logical(&self) -> (r: bool)
        ensures
            r == self.is_comparison(),
    {
        match self {
            Op::Eq | Op::NE | Op::LT | Op::LTE | Op::GT | Op::GTE => true,
            _ => false,
        }
    }

    /// The operator as it is written in source text.
    pub fn to_string(&self) -> (s: String)
        ensures
            s@ == self.symbol(),
    {
        let text = match self {
            Op::Add => "+",
            Op::Sub => "-",
            Op::Devd => "/",
            Op::Mult => "*",
            Op::Pow => "^",
            Op::Remain => "%",
            Op::Eq => "==",
            Op::Not => "!",
            Op::NE => "!=",
            Op::LT => "<",
            Op::LTE => "<=",
            Op::GT => ">",
            Op::GTE => ">=",
            Op::And => "&&",
            Op::Or => "||",
        };
        proof {
            reveal_strlit("+");
            reveal_strlit("-");
            reveal_strlit("/");
            reveal_strlit("*");
            reveal_strlit("^");
            reveal_strlit("%");
            reveal_strlit("==");
            reveal_strlit("!");
            reveal_strlit("!=");
            reveal_strlit("<");
            reveal_strlit("<=");
            reveal_strlit(">");
            reveal_strlit(">=");
            reveal_strlit("&&");
            reveal_strlit("||");
        }
        let s = String::from_str(text);
        assert(s@ =~= self.symbol());
        s
    }
}

} // verus!
