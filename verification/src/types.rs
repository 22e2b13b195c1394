//! Values and the operations on them.

use vstd::prelude::*;
use crate::error::{outcome, RuntimeError, RuntimeErrorView};
use crate::float::{
    equal, float_equal, float_is_zero, float_negated, is_zero, negated, Facts, FloatFacts,
    FloatQuery, FloatQueryView,
};
use crate::op::Op;
use crate::text::{push_signed_numeral, push_text, signed_numeral};

verus! {

/// A value of the language. A float is held as the bits of its binary64 form.
/// `Unit` is the absence of a value: what a declaration evaluates to.
#[derive(Clone, Copy, PartialEq, Eq, Structural, Debug)]
pub enum Type {
    Int(i128),
    Float(u64),
    Bool(bool),
    Unit,
}

/// Whether `x` fits in 128 bits with a sign.
pub open spec fn fits(x: int) -> bool {
    i128::MIN <= x <= i128::MAX
}

/// Division that rounds toward zero.
pub open spec fn quotient(x: int, y: int) -> int
    recommends
        y != 0,
{
    if x >= 0 && y > 0 {
        x / y
    } else if x < 0 && y < 0 {
        (-x) / (-y)
    } else if x < 0 {
        -((-x) / y)
    } else {
        -(x / (-y))
    }
}

/// The remainder of the division that rounds toward zero: it has the sign of
/// the dividend.
pub open spec fn remainder(x: int, y: int) -> int
    recommends
        y != 0,
{
    if x >= 0 && y > 0 {
        x % y
    } else if x < 0 && y < 0 {
        -((-x) % (-y))
    } else if x < 0 {
        -((-x) % y)
    } else {
        x % (-y)
    }
}

/// `x` multiplied by itself `n` times.
pub open spec fn power(x: int, n: nat) -> int
    decreases n,
{
    if n == 0 {
        1
    } else {
        x * power(x, (n - 1) as nat)
    }
}

/// The distance of `x` from zero.
pub open spec fn absolute(x: int) -> int {
    if x < 0 {
        -x
    } else {
        x
    }
}

/// An integer result, where it fits in 128 bits.
pub open spec fn checked(op: Op, x: i128, y: i128, value: int) -> Result<Type, RuntimeErrorView> {
    if fits(value) {
        Ok(Type::Int(value as i128))
    } else {
        Err(RuntimeErrorView::Overflow(op, Type::Int(x), Type::Int(y)))
    }
}

/// An arithmetic operator on two integers.
pub open spec fn on_ints(op: Op, x: i128, y: i128) -> Result<Type, RuntimeErrorView> {
    match op {
        Op::Add => checked(op, x, y, x + y),
        Op::Sub => checked(op, x, y, x - y),
        Op::Mult => checked(op, x, y, x * y),
        Op::Devd => if y == 0 {
            Err(RuntimeErrorView::ZeroDivisor(op, Type::Int(x), Type::Int(y)))
        } else {
            checked(op, x, y, quotient(x as int, y as int))
        },
        Op::Remain => if y == 0 {
            Err(RuntimeErrorView::ZeroDivisor(op, Type::Int(x), Type::Int(y)))
        } else {
            checked(op, x, y, remainder(x as int, y as int))
        },
        Op::Pow => if 0 <= y <= u32::MAX {
            checked(op, x, y, power(x as int, y as nat))
        } else {
            Err(RuntimeErrorView::BadExponent(Type::Int(x), Type::Int(y)))
        },
        _ => Err(RuntimeErrorView::Unsupported(op, Type::Int(x), Type::Int(y))),
    }
}

/// An arithmetic operator on two floats: the result that `facts` records, or
/// the request for it.
pub open spec fn on_floats(op: Op, x: u64, y: u64, facts: Facts) -> Result<
    Type,
    RuntimeErrorView,
> {
    match facts.result(op, x, y) {
        Some(r) => Ok(Type::Float(r)),
        None => Err(RuntimeErrorView::AskFloat(op, x, y)),
    }
}

/// An arithmetic operator on two values: both integers or both floats.
pub open spec fn arithmetic(op: Op, a: Type, b: Type, facts: Facts) -> Result<
    Type,
    RuntimeErrorView,
> {
    match (a, b) {
        (Type::Int(x), Type::Int(y)) => on_ints(op, x, y),
        (Type::Float(x), Type::Float(y)) => on_floats(op, x, y, facts),
        _ => Err(RuntimeErrorView::Mismatch(op, a, b)),
    }
}

/// Division and remainder: a zero divisor is refused before the types are
/// looked at.
pub open spec fn division(op: Op, a: Type, b: Type, facts: Facts) -> Result<
    Type,
    RuntimeErrorView,
> {
    if b.zero() {
        Err(RuntimeErrorView::ZeroDivisor(op, a, b))
    } else {
        arithmetic(op, a, b, facts)
    }
}

/// Equality of two integers or of two floats.
pub open spec fn equality(a: Type, b: Type) -> Result<Type, RuntimeErrorView> {
    match (a, b) {
        (Type::Int(x), Type::Int(y)) => Ok(Type::Bool(x == y)),
        (Type::Float(x), Type::Float(y)) => Ok(Type::Bool(equal(x, y))),
        _ => Err(RuntimeErrorView::Mismatch(Op::Eq, a, b)),
    }
}

/// Conjunction or disjunction of two booleans.
pub open spec fn connective(op: Op, a: Type, b: Type) -> Result<Type, RuntimeErrorView> {
    match (a, b) {
        (Type::Bool(x), Type::Bool(y)) => Ok(
            Type::Bool(
                if op == Op::And {
                    x && y
                } else {
                    x || y
                },
            ),
        ),
        _ => Err(RuntimeErrorView::Mismatch(op, a, b)),
    }
}

impl Type {
    /// Whether the value is the integer zero or a float zero of either sign.
    pub open spec fn zero(self) -> bool {
        match self {
            Type::Int(i) => i == 0,
            Type::Float(f) => is_zero(f),
            _ => false,
        }
    }

    /// The value negated: a number changes sign, a boolean flips.
    pub open spec fn negation(self) -> Result<Type, RuntimeErrorView> {
        match self {
            Type::Int(i) => checked(Op::Sub, 0, i, -i),
            Type::Float(f) => Ok(Type::Float(negated(f))),
            Type::Bool(b) => Ok(Type::Bool(!b)),
            Type::Unit => Err(RuntimeErrorView::CantInvert(self)),
        }
    }

    /// The printed form of the value, or the request for that of a float.
    pub open spec fn rendering(self, facts: Facts) -> Result<Seq<char>, FloatQueryView> {
        match self {
            Type::Unit => Ok("()"@),
            Type::Int(i) => Ok("int("@ + signed_numeral(i as int) + ")"@),
            Type::Bool(b) => Ok(
                "bool("@ + (if b {
                    "true"@
                } else {
                    "false"@
                }) + ")"@,
            ),
            Type::Float(f) => match facts.text(f) {
                Some(t) => Ok("float("@ + t + ")"@),
                None => Err(FloatQueryView::Text(f)),
            },
        }
    }

    /// Whether the value is the integer zero or a float zero of either sign.
    pub fn is_zero(&self) -> (r: bool)
        ensures
            r == self.zero(),
    {
        match self {
            Type::Int(i) => *i == 0,
            Type::Float(f) => float_is_zero(*f),
            _ => false,
        }
    }

    /// The value negated: a number changes sign, a boolean flips. The
    /// absence of a value cannot be negated, and neither can `i128::MIN`.
    pub fn inverted(&self) -> (r: Result<Type, RuntimeError>)
        ensures
            outcome(r) == self.negation(),
    {
        match self {
            Type::Int(i) => match 0i128.checked_sub(*i) {
                Some(n) => Ok(Type::Int(n)),
                None => Err(RuntimeError::Overflow(Op::Sub, Type::Int(0), *self)),
            },
            Type::Float(f) => Ok(Type::Float(float_negated(*f))),
            Type::Bool(b) => Ok(Type::Bool(!*b)),
            Type::Unit => Err(RuntimeError::CantInvert(*self)),
        }
    }

    /// `int(..)`, `float(..)`, `bool(..)` or `()`. The digits of a float come
    /// from `facts`; where they are missing the request for them is returned.
    pub fn to_string(&self, facts: &FloatFacts) -> (r: Result<String, FloatQuery>)
        ensures
            match r {
                Ok(s) => self.rendering(facts@) == Ok::<Seq<char>, FloatQueryView>(s@),
                Err(q) => self.rendering(facts@) == Err::<Seq<char>, FloatQueryView>(q@),
            },
    {
        match self {
            Type::Unit => Ok(String::from_str("()")),
            Type::Int(i) => {
                let mut s = String::from_str("int(");
                push_signed_numeral(&mut s, *i);
                push_text(&mut s, ")");
                Ok(s)
            },
            Type::Bool(b) => {
                let mut s = String::from_str("bool(");
                if *b {
                    push_text(&mut s, "true");
                } else {
                    push_text(&mut s, "false");
                }
                push_text(&mut s, ")");
                Ok(s)
            },
            Type::Float(f) => match facts.text(*f) {
                Some(t) => {
                    let mut s = String::from_str("float(");
                    push_text(&mut s, t.as_str());
                    push_text(&mut s, ")");
                    Ok(s)
                },
                None => Err(FloatQuery::Text(*f)),
            },
        }
    }
}

proof fn power_of_small(x: int, n: nat)
    ensures
        x == 0 && n > 0 ==> power(x, n) == 0,
        x == 1 ==> power(x, n) == 1,
        x == -1 ==> power(x, n) == (if n % 2 == 0 {
            1int
        } else {
            -1int
        }),
    decreases n,
{
    if n > 0 {
        power_of_small(x, (n - 1) as nat);
    }
}

proof fn power_grows(x: int, m: nat, n: nat)
    requires
        x >= 2 || x <= -2,
        m <= n,
    ensures
        absolute(power(x, m)) >= 1,
        m < n ==> absolute(power(x, n)) >= 2 * absolute(power(x, m)),
    decreases n,
{
    if m < n {
        power_grows(x, m, (n - 1) as nat);
        let y = power(x, (n - 1) as nat);
        assert(absolute(y) >= 1) by {
            power_grows(x, (n - 1) as nat, (n - 1) as nat);
        }
        assert(absolute(x * y) >= 2 * absolute(y)) by (nonlinear_arith)
            requires
                x >= 2 || x <= -2,
        ;
    } else if m > 0 {
        power_grows(x, (m - 1) as nat, (m - 1) as nat);
        let y = power(x, (m - 1) as nat);
        assert(absolute(x * y) >= 2 * absolute(y)) by (nonlinear_arith)
            requires
                x >= 2 || x <= -2,
        ;
    }
}

/// `x` to the power `n`, where it fits in 128 bits.
pub fn int_power(x: i128, n: u32) -> (r: Option<i128>)
    ensures
        r == (if fits(power(x as int, n as nat)) {
            Some(power(x as int, n as nat) as i128)
        } else {
            None
        }),
{
    proof {
        power_of_small(x as int, n as nat);
    }
    if n == 0 || x == 1 {
        return Some(1);
    }
    if x == 0 {
        return Some(0);
    }
    if x == -1 {
        return Some(
            if n % 2 == 0 {
                1
            } else {
                -1
            },
        );
    }
    let mut acc: i128 = 1;
    let mut i: u32 = 0;
    while i < n
        invariant
            i <= n,
            x >= 2 || x <= -2,
            acc == power(x as int, i as nat),
        decreases n - i,
    {
        assert(power(x as int, (i + 1) as nat) == x * acc);
        match acc.checked_mul(x) {
            Some(m) => {
                assert(x * acc == acc * x) by (nonlinear_arith);
                acc = m;
            },
            None => {
                proof {
                    assert(x * acc == acc * x) by (nonlinear_arith);
                    power_grows(x as int, (i + 1) as nat, n as nat);
                }
                return None;
            },
        }
        i += 1;
    }
    Some(acc)
}

impl Type {
    /// Calls `func` on the two floats where both values are floats.
    pub fn ensure_float<F: FnOnce(u64, u64) -> Type>(&self, token: &Type, func: F) -> (r: Option<
        Type,
    >)
        requires
            *self matches Type::Float(a) ==> (*token matches Type::Float(b) ==> func.requires(
                (a, b),
            )),
        ensures
            match (*self, *token) {
                (Type::Float(a), Type::Float(b)) => r matches Some(v) && func.ensures((a, b), v),
                _ => r is None,
            },
    {
        match self {
            Type::Float(a) => match token {
                Type::Float(b) => Some(func(*a, *b)),
                _ => None,
            },
            _ => None,
        }
    }

    /// Calls `func` on the two integers where both values are integers.
    pub fn ensure_int<F: FnOnce(i128, i128) -> Type>(&self, token: &Type, func: F) -> (r: Option<
        Type,
    >)
        requires
            *self matches Type::Int(a) ==> (*token matches Type::Int(b) ==> func.requires(
                (a, b),
            )),
        ensures
            match (*self, *token) {
                (Type::Int(a), Type::Int(b)) => r matches Some(v) && func.ensures((a, b), v),
                _ => r is None,
            },
    {
        match self {
            Type::Int(a) => match token {
                Type::Int(b) => Some(func(*a, *b)),
                _ => None,
            },
            _ => None,
        }
    }

    /// Calls `func` on the two booleans where both values are booleans.
    pub fn ensure_bool<F: FnOnce(bool, bool) -> Type>(&self, token: &Type, func: F) -> (r: Option<
        Type,
    >)
        requires
            *self matches Type::Bool(a) ==> (*token matches Type::Bool(b) ==> func.requires(
                (a, b),
            )),
        ensures
            match (*self, *token) {
                (Type::Bool(a), Type::Bool(b)) => r matches Some(v) && func.ensures((a, b), v),
                _ => r is None,
            },
    {
        match self {
            Type::Bool(a) => match token {
                Type::Bool(b) => Some(func(*a, *b)),
                _ => None,
            },
            _ => None,
        }
    }

    /// An arithmetic operator on two floats, answered from `facts`.
    fn float_result(op: Op, x: u64, y: u64, facts: &FloatFacts) -> (r: Result<Type, RuntimeError>)
        ensures
            outcome(r) == on_floats(op, x, y, facts@),
    {
        match facts.result(op, x, y) {
            Some(bits) => Ok(Type::Float(bits)),
            None => Err(RuntimeError::AskFloat(op, x, y)),
        }
    }

    fn int_result(op: Op, x: i128, y: i128, value: Option<i128>) -> (r: Result<Type, RuntimeError>)
        ensures
            outcome(r) == (match value {
                Some(v) => Ok(Type::Int(v)),
                None => Err(RuntimeErrorView::Overflow(op, Type::Int(x), Type::Int(y))),
            }),
    {
        match value {
            Some(v) => Ok(Type::Int(v)),
            None => Err(RuntimeError::Overflow(op, Type::Int(x), Type::Int(y))),
        }
    }

    /// The sum of two integers or of two floats.
    pub fn add(&self, other: &Type, facts: &FloatFacts) -> (r: Result<Type, RuntimeError>)
        ensures
            outcome(r) == arithmetic(Op::Add, *self, *other, facts@),
    {
        match (self, other) {
            (Type::Int(x), Type::Int(y)) => Self::int_result(Op::Add, *x, *y, x.checked_add(*y)),
            (Type::Float(x), Type::Float(y)) => Self::float_result(Op::Add, *x, *y, facts),
            _ => Err(RuntimeError::Mismatch(Op::Add, *self, *other)),
        }
    }

    /// The difference of two integers or of two floats.
    pub fn sub(&self, other: &Type, facts: &FloatFacts) -> (r: Result<Type, RuntimeError>)
        ensures
            outcome(r) == arithmetic(Op::Sub, *self, *other, facts@),
    {
        match (self, other) {
            (Type::Int(x), Type::Int(y)) => Self::int_result(Op::Sub, *x, *y, x.checked_sub(*y)),
            (Type::Float(x), Type::Float(y)) => Self::float_result(Op::Sub, *x, *y, facts),
            _ => Err(RuntimeError::Mismatch(Op::Sub, *self, *other)),
        }
    }

    /// The product of two integers or of two floats.
    pub fn mult(&self, other: &Type, facts: &FloatFacts) -> (r: Result<Type, RuntimeError>)
        ensures
            outcome(r) == arithmetic(Op::Mult, *self, *other, facts@),
    {
        match (self, other) {
            (Type::Int(x), Type::Int(y)) => Self::int_result(Op::Mult, *x, *y, x.checked_mul(*y)),
            (Type::Float(x), Type::Float(y)) => Self::float_result(Op::Mult, *x, *y, facts),
            _ => Err(RuntimeError::Mismatch(Op::Mult, *self, *other)),
        }
    }

    /// The quotient of two integers, rounded toward zero, or of two floats.
    /// A zero divisor is refused before the types are looked at.
    pub fn devd(&self, other: &Type, facts: &FloatFacts) -> (r: Result<Type, RuntimeError>)
        ensures
            outcome(r) == division(Op::Devd, *self, *other, facts@),
    {
        if other.is_zero() {
            return Err(RuntimeError::ZeroDivisor(Op::Devd, *self, *other));
        }
        match (self, other) {
            (Type::Int(x), Type::Int(y)) => Self::int_result(Op::Devd, *x, *y, x.checked_div(*y)),
            (Type::Float(x), Type::Float(y)) => Self::float_result(Op::Devd, *x, *y, facts),
            _ => Err(RuntimeError::Mismatch(Op::Devd, *self, *other)),
        }
    }

    /// The remainder of two integers, with the sign of the dividend, or of
    /// two floats. A zero divisor is refused before the types are looked at.
    pub fn remain(&self, other: &Type, facts: &FloatFacts) -> (r: Result<Type, RuntimeError>)
        ensures
            outcome(r) == division(Op::Remain, *self, *other, facts@),
    {
        if other.is_zero() {
            return Err(RuntimeError::ZeroDivisor(Op::Remain, *self, *other));
        }
        match (self, other) {
            (Type::Int(x), Type::Int(y)) => match x.checked_rem(*y) {
                Some(v) => Ok(Type::Int(v)),
                None => Ok(Type::Int(0)),
            },
            (Type::Float(x), Type::Float(y)) => Self::float_result(Op::Remain, *x, *y, facts),
            _ => Err(RuntimeError::Mismatch(Op::Remain, *self, *other)),
        }
    }

    /// An integer to the power of an integer from zero to `u32::MAX`, or a
    /// float to the power of a float.
    pub fn pow(&self, other: &Type, facts: &FloatFacts) -> (r: Result<Type, RuntimeError>)
        ensures
            outcome(r) == arithmetic(Op::Pow, *self, *other, facts@),
    {
        match (self, other) {
            (Type::Int(x), Type::Int(y)) => {
                if *y < 0 || *y > 0xffff_ffff {
                    Err(RuntimeError::BadExponent(*self, *other))
                } else {
                    Self::int_result(Op::Pow, *x, *y, int_power(*x, *y as u32))
                }
            },
            (Type::Float(x), Type::Float(y)) => Self::float_result(Op::Pow, *x, *y, facts),
            _ => Err(RuntimeError::Mismatch(Op::Pow, *self, *other)),
        }
    }

    /// Whether two integers, or two floats, are equal.
    pub fn eq(&self, other: &Type) -> (r: Result<Type, RuntimeError>)
        ensures
            outcome(r) == equality(*self, *other),
    {
        match (self, other) {
            (Type::Int(x), Type::Int(y)) => Ok(Type::Bool(*x == *y)),
            (Type::Float(x), Type::Float(y)) => Ok(Type::Bool(float_equal(*x, *y))),
            _ => Err(RuntimeError::Mismatch(Op::Eq, *self, *other)),
        }
    }

    /// The conjunction of two booleans.
    pub fn and(&self, other: &Type) -> (r: Result<Type, RuntimeError>)
        ensures
            outcome(r) == connective(Op::And, *self, *other),
    {
        match (self, other) {
            (Type::Bool(x), Type::Bool(y)) => Ok(Type::Bool(*x && *y)),
            _ => Err(RuntimeError::Mismatch(Op::And, *self, *other)),
        }
    }

    /// The disjunction of two booleans.
    pub fn or(&self, other: &Type) -> (r: Result<Type, RuntimeError>)
        ensures
            outcome(r) == connective(Op::Or, *self, *other),
    {
        match (self, other) {
            (Type::Bool(x), Type::Bool(y)) => Ok(Type::Bool(*x || *y)),
            _ => Err(RuntimeError::Mismatch(Op::Or, *self, *other)),
        }
    }
}

} // verus!
