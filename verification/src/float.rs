//! Float values as bit patterns, and the table of host-supplied float facts.
//!
//! A float is the 64 bits of its IEEE 754 binary64 form. What follows from the
//! bits in a line or two (the sign, zero, NaN, equality) is computed here.
//! What takes float hardware is asked of the host: a function that needs the
//! value of a decimal literal, the result of an arithmetic operation or the
//! printed form of a float looks it up in a [`FloatFacts`], and where the
//! table has no entry it stops and hands back the [`FloatQuery`] to answer.
//! The host answers, adds the fact and calls again.

use vstd::prelude::*;
use crate::op::Op;

verus! {

/// The sign bit of a binary64.
pub const SIGN_BIT: u64 = 0x8000_0000_0000_0000;

/// The bit pattern of positive infinity; every larger magnitude is a NaN.
pub const INFINITY_BITS: u64 = 0x7ff0_0000_0000_0000;

/// The bits without the sign.
pub open spec fn magnitude(bits: u64) -> u64 {
    if bits >= SIGN_BIT {
        (bits - SIGN_BIT) as u64
    } else {
        bits
    }
}

/// No number: a magnitude above that of infinity.
pub open spec fn is_nan(bits: u64) -> bool {
    magnitude(bits) > INFINITY_BITS
}

/// Positive or negative zero.
pub open spec fn is_zero(bits: u64) -> bool {
    magnitude(bits) == 0
}

/// The float of opposite sign: the same bits with the sign bit flipped.
pub open spec fn negated(bits: u64) -> u64 {
    if bits >= SIGN_BIT {
        (bits - SIGN_BIT) as u64
    } else {
        (bits + SIGN_BIT) as u64
    }
}

/// IEEE 754 equality: a NaN equals nothing, the two zeros are equal, and any
/// other two floats are equal when their bits are.
pub open spec fn equal(a: u64, b: u64) -> bool {
    !is_nan(a) && !is_nan(b) && (a == b || (is_zero(a) && is_zero(b)))
}

/// The bits without the sign.
pub fn float_magnitude(bits: u64) -> (r: u64)
    ensures
        r == magnitude(bits),
{
    if bits >= SIGN_BIT {
        bits - SIGN_BIT
    } else {
        bits
    }
}

/// Whether the float is no number.
pub fn float_is_nan(bits: u64) -> (r: bool)
    ensures
        r == is_nan(bits),
{
    float_magnitude(bits) > INFINITY_BITS
}

/// Whether the float is a zero of either sign.
pub fn float_is_zero(bits: u64) -> (r: bool)
    ensures
        r == is_zero(bits),
{
    float_magnitude(bits) == 0
}

/// The float of opposite sign.
pub fn float_negated(bits: u64) -> (r: u64)
    ensures
        r == negated(bits),
{
    if bits >= SIGN_BIT {
        bits - SIGN_BIT
    } else {
        bits + SIGN_BIT
    }
}

/// Whether two floats are equal as IEEE 754 has it.
pub fn float_equal(a: u64, b: u64) -> (r: bool)
    ensures
        r == equal(a, b),
{
    !float_is_nan(a) && !float_is_nan(b) && (a == b || (float_is_zero(a) && float_is_zero(b)))
}

/// A question that only float hardware can answer.
#[derive(Clone, Debug, PartialEq, Eq)]
pub enum FloatQuery {
    /// The value of a decimal literal with one point, such as `12.5`.
    Literal(String),
    /// The result of an arithmetic operator on two floats.
    Binary(Op, u64, u64),
    /// The printed form of a float.
    Text(u64),
}

pub enum FloatQueryView {
    Literal(Seq<char>),
    Binary(Op, u64, u64),
    Text(u64),
}

impl View for FloatQuery {
    type V = FloatQueryView;

    open spec fn view(&self) -> FloatQueryView {
        match self {
            FloatQuery::Literal(text) => FloatQueryView::Literal(text@),
            FloatQuery::Binary(op, left, right) => FloatQueryView::Binary(*op, *left, *right),
            FloatQuery::Text(bits) => FloatQueryView::Text(*bits),
        }
    }
}

/// The value of one literal: its bits, or nothing where the host could not
/// read it as a float.
pub struct LiteralFact {
    pub text: String,
    pub bits: Option<u64>,
}

/// The result of one operation.
pub struct BinaryFact {
    pub op: Op,
    pub left: u64,
    pub right: u64,
    pub result: u64,
}

/// The printed form of one float.
pub struct TextFact {
    pub bits: u64,
    pub text: String,
}

pub struct LiteralFactView {
    pub text: Seq<char>,
    pub bits: Option<u64>,
}

pub struct TextFactView {
    pub bits: u64,
    pub text: Seq<char>,
}

impl View for LiteralFact {
    type V = LiteralFactView;

    open spec fn view(&self) -> LiteralFactView {
        LiteralFactView { text: self.text@, bits: self.bits }
    }
}

impl View for TextFact {
    type V = TextFactView;

    open spec fn view(&self) -> TextFactView {
        TextFactView { bits: self.bits, text: self.text@ }
    }
}

/// What a table of facts holds, in the order in which it was learned.
pub struct Facts {
    pub literals: Seq<LiteralFactView>,
    pub results: Seq<BinaryFact>,
    pub texts: Seq<TextFactView>,
}

impl Facts {
    /// No facts.
    pub open spec fn empty() -> Facts {
        Facts { literals: Seq::empty(), results: Seq::empty(), texts: Seq::empty() }
    }

    /// The value recorded for a literal: that of the first fact about it.
    pub open spec fn literal(self, text: Seq<char>) -> Option<Option<u64>> {
        first_literal(self.literals, text)
    }

    /// The result recorded for an operation: that of the first fact about it.
    pub open spec fn result(self, op: Op, left: u64, right: u64) -> Option<u64> {
        first_result(self.results, op, left, right)
    }

    /// The printed form recorded for a float: that of the first fact about it.
    pub open spec fn text(self, bits: u64) -> Option<Seq<char>> {
        first_text(self.texts, bits)
    }
}

/// The value of the first fact about the literal `text`.
pub open spec fn first_literal(facts: Seq<LiteralFactView>, text: Seq<char>) -> Option<
    Option<u64>,
>
    decreases facts.len(),
{
    if facts.len() == 0 {
        None
    } else if facts[0].text == text {
        Some(facts[0].bits)
    } else {
        first_literal(facts.drop_first(), text)
    }
}

/// The result of the first fact about `op` on `left` and `right`.
pub open spec fn first_result(facts: Seq<BinaryFact>, op: Op, left: u64, right: u64) -> Option<
    u64,
>
    decreases facts.len(),
{
    if facts.len() == 0 {
        None
    } else if facts[0].op == op && facts[0].left == left && facts[0].right == right {
        Some(facts[0].result)
    } else {
        first_result(facts.drop_first(), op, left, right)
    }
}

/// The text of the first fact about the float `bits`.
pub open spec fn first_text(facts: Seq<TextFactView>, bits: u64) -> Option<Seq<char>>
    decreases facts.len(),
{
    if facts.len() == 0 {
        None
    } else if facts[0].bits == bits {
        Some(facts[0].text)
    } else {
        first_text(facts.drop_first(), bits)
    }
}

/// The float facts that the host has supplied so far. A fact is never revised:
/// the first answer to a question stands.
pub struct FloatFacts {
    literals: Vec<LiteralFact>,
    results: Vec<BinaryFact>,
    texts: Vec<TextFact>,
}

impl View for FloatFacts {
    type V = Facts;

    closed spec fn view(&self) -> Facts {
        Facts {
            literals: self.literals@.map_values(|f: LiteralFact| f@),
            results: self.results@,
            texts: self.texts@.map_values(|f: TextFact| f@),
        }
    }
}

impl FloatFacts {
    /// A table without facts.
    pub fn new() -> (facts: Self)
        ensures
            facts@ == Facts::empty(),
    {
        let facts = FloatFacts { literals: Vec::new(), results: Vec::new(), texts: Vec::new() };
        assert(facts@.literals =~= Seq::empty());
        assert(facts@.texts =~= Seq::empty());
        facts
    }

    /// Records the value of a literal.
    pub fn learn_literal(&mut self, text: String, bits: Option<u64>)
        ensures
            final(self)@ == (Facts {
                literals: old(self)@.literals.push(LiteralFactView { text: text@, bits }),
                ..old(self)@
            }),
    {
        self.literals.push(LiteralFact { text, bits });
        assert(final(self)@.literals =~= old(self)@.literals.push(
            LiteralFactView { text: text@, bits },
        ));
    }

    /// Records the result of an operation.
    pub fn learn_result(&mut self, op: Op, left: u64, right: u64, result: u64)
        ensures
            final(self)@ == (Facts {
                results: old(self)@.results.push(BinaryFact { op, left, right, result }),
                ..old(self)@
            }),
    {
        self.results.push(BinaryFact { op, left, right, result });
    }

    /// Records the printed form of a float.
    pub fn learn_text(&mut self, bits: u64, text: String)
        ensures
            final(self)@ == (Facts {
                texts: old(self)@.texts.push(TextFactView { bits, text: text@ }),
                ..old(self)@
            }),
    {
        self.texts.push(TextFact { bits, text });
        assert(final(self)@.texts =~= old(self)@.texts.push(TextFactView { bits, text: text@ }));
    }

    /// The value of a literal, where the table has it.
    pub fn literal(&self, text: &String) -> (r: Option<Option<u64>>)
        ensures
            r == self@.literal(text@),
    {
        let ghost all = self@.literals;
        let mut i: usize = 0;
        assert(all.skip(0) == all);
        while i < self.literals.len()
            invariant
                i <= self.literals.len(),
                all == self@.literals,
                all.len() == self.literals.len(),
                first_literal(all, text@) == first_literal(all.skip(i as int), text@),
            decreases self.literals.len() - i,
        {
            assert(all.skip(i as int)[0] == self.literals[i as int]@);
            assert(all.skip(i as int).drop_first() == all.skip(i + 1));
            if self.literals[i].text == *text {
                return Some(self.literals[i].bits);
            }
            i += 1;
        }
        assert(all.skip(i as int).len() == 0);
        None
    }

    /// The result of an operation, where the table has it.
    pub fn result(&self, op: Op, left: u64, right: u64) -> (r: Option<u64>)
        ensures
            r == self@.result(op, left, right),
    {
        let ghost all = self@.results;
        let mut i: usize = 0;
        assert(all.skip(0) == all);
        while i < self.results.len()
            invariant
                i <= self.results.len(),
                all == self.results@,
                first_result(all, op, left, right) == first_result(
                    all.skip(i as int),
                    op,
                    left,
                    right,
                ),
            decreases self.results.len() - i,
        {
            assert(all.skip(i as int)[0] == self.results[i as int]);
            assert(all.skip(i as int).drop_first() == all.skip(i + 1));
            let f = &self.results[i];
            if f.op == op && f.left == left && f.right == right {
                return Some(f.result);
            }
            i += 1;
        }
        assert(all.skip(i as int).len() == 0);
        None
    }

    /// The printed form of a float, where the table has it.
    pub fn text(&self, bits: u64) -> (r: Option<String>)
        ensures
            match r {
                Some(s) => self@.text(bits) == Some(s@),
                None => self@.text(bits) is None,
            },
    {
        let ghost all = self@.texts;
        let mut i: usize = 0;
        assert(all.skip(0) == all);
        while i < self.texts.len()
            invariant
                i <= self.texts.len(),
                all == self@.texts,
                all.len() == self.texts.len(),
                first_text(all, bits) == first_text(all.skip(i as int), bits),
            decreases self.texts.len() - i,
        {
            assert(all.skip(i as int)[0] == self.texts[i as int]@);
            assert(all.skip(i as int).drop_first() == all.skip(i + 1));
            if self.texts[i].bits == bits {
                return Some(self.texts[i].text.clone());
            }
            i += 1;
        }
        assert(all.skip(i as int).len() == 0);
        None
    }
}

} // verus!
