//! Tokens: the lexical units of the language, each with its place in the text.

use vstd::prelude::*;
use crate::float::{Facts, FloatFacts, FloatQuery, FloatQueryView};
use crate::keyword::Keyword;
use crate::op::Op;
use crate::text::push_text;
use crate::types::Type;

verus! {

/// The kind of a token.
#[derive(Clone, Debug, PartialEq, Eq)]
pub enum TT {
    RPR,
    LPR,
    Op(Op),
    Type(Type),
    Keyword(Keyword),
    Indenifier(String),
    EQ,
    EOF,
}

/// The kind of a token as a mathematical value.
pub enum Kind {
    RPR,
    LPR,
    Op(Op),
    Type(Type),
    Keyword(Keyword),
    Indenifier(Seq<char>),
    EQ,
    EOF,
}

impl View for TT {
    type V = Kind;

    open spec fn view(&self) -> Kind {
        match self {
            TT::RPR => Kind::RPR,
            TT::LPR => Kind::LPR,
            TT::Op(op) => Kind::Op(*op),
            TT::Type(value) => Kind::Type(*value),
            TT::Keyword(keyword) => Kind::Keyword(*keyword),
            TT::Indenifier(name) => Kind::Indenifier(name@),
            TT::EQ => Kind::EQ,
            TT::EOF => Kind::EOF,
        }
    }
}

impl Kind {
    /// The printed form of the kind, or the request for that of a float.
    pub open spec fn rendering(self, facts: Facts) -> Result<Seq<char>, FloatQueryView> {
        match self {
            Kind::RPR => Ok(seq![')']),
            Kind::LPR => Ok(seq!['(']),
            Kind::Op(op) => Ok(op.symbol()),
            Kind::Type(value) => value.rendering(facts),
            Kind::Keyword(keyword) => Ok(keyword.word()),
            Kind::Indenifier(name) => Ok(name),
            Kind::EQ => Ok(seq!['=']),
            Kind::EOF => Ok(seq!['E', 'O', 'F']),
        }
    }
}

impl TT {
    /// A copy of the kind.
    pub fn duplicate(&self) -> (r: TT)
        ensures
            r@ == self@,
    {
        match self {
            TT::RPR => TT::RPR,
            TT::LPR => TT::LPR,
            TT::Op(op) => TT::Op(*op),
            TT::Type(value) => TT::Type(*value),
            TT::Keyword(keyword) => TT::Keyword(*keyword),
            TT::Indenifier(name) => TT::Indenifier(name.clone()),
            TT::EQ => TT::EQ,
            TT::EOF => TT::EOF,
        }
    }

    /// The value of a literal token; an error for a token of another kind.
    pub fn to_type(&self) -> (r: Result<Type, NoConversion>)
        ensures
            match self@ {
                Kind::Type(value) => r == Ok::<Type, NoConversion>(value),
                _ => r matches Err(e) && e@ == (NoConversionView {
                    tt: self@,
                    wanted: Wanted::Type,
                }),
            },
    {
        match self {
            TT::Type(value) => Ok(*value),
            _ => Err(NoConversion { tt: self.duplicate(), wanted: Wanted::Type }),
        }
    }

    /// The operator of an operator token; an error for a token of another
    /// kind.
    pub fn to_op(&self) -> (r: Result<Op, NoConversion>)
        ensures
            match self@ {
                Kind::Op(op) => r == Ok::<Op, NoConversion>(op),
                _ => r matches Err(e) && e@ == (NoConversionView {
                    tt: self@,
                    wanted: Wanted::Operator,
                }),
            },
    {
        match self {
            TT::Op(op) => Ok(*op),
            _ => Err(NoConversion { tt: self.duplicate(), wanted: Wanted::Operator }),
        }
    }

    /// The printed form of the kind. The digits of a float literal come from
    /// `facts`; where they are missing the request for them is returned.
    pub fn to_string(&self, facts: &FloatFacts) -> (r: Result<String, FloatQuery>)
        ensures
            match r {
                Ok(s) => self@.rendering(facts@) == Ok::<Seq<char>, FloatQueryView>(s@),
                Err(q) => self@.rendering(facts@) == Err::<Seq<char>, FloatQueryView>(q@),
            },
    {
        proof {
            reveal_strlit(")");
            reveal_strlit("(");
            reveal_strlit("=");
            reveal_strlit("EOF");
        }
        match self {
            TT::RPR => {
                let s = String::from_str(")");
                assert(s@ =~= seq![')']);
                Ok(s)
            },
            TT::LPR => {
                let s = String::from_str("(");
                assert(s@ =~= seq!['(']);
                Ok(s)
            },
            TT::Op(op) => Ok(op.to_string()),
            TT::Type(value) => value.to_string(facts),
            TT::Keyword(keyword) => Ok(keyword.to_string()),
            TT::Indenifier(name) => Ok(name.clone()),
            TT::EQ => {
                let s = String::from_str("=");
                assert(s@ =~= seq!['=']);
                Ok(s)
            },
            TT::EOF => {
                let s = String::from_str("EOF");
                assert(s@ =~= seq!['E', 'O', 'F']);
                Ok(s)
            },
        }
    }
}

/// What a token kind was to be turned into.
#[derive(Clone, Copy, PartialEq, Eq, Structural, Debug)]
pub enum Wanted {
    Type,
    Operator,
}

/// A token kind that could not be turned into what was wanted.
#[derive(Clone, Debug, PartialEq, Eq)]
pub struct NoConversion {
    pub tt: TT,
    pub wanted: Wanted,
}

pub struct NoConversionView {
    pub tt: Kind,
    pub wanted: Wanted,
}

impl View for NoConversion {
    type V = NoConversionView;

    open spec fn view(&self) -> NoConversionView {
        NoConversionView { tt: self.tt@, wanted: self.wanted }
    }
}

impl NoConversionView {
    /// The message of the error, or the request for the printed form of a
    /// float literal.
    pub open spec fn message(self, facts: Facts) -> Result<Seq<char>, FloatQueryView> {
        match self.tt.rendering(facts) {
            Ok(printed) => Ok(
                "can't convert "@ + printed + (if self.wanted == Wanted::Type {
                    " to type"@
                } else {
                    " to operator"@
                }),
            ),
            Err(q) => Err(q),
        }
    }
}

impl NoConversion {
    /// The message of the error. Where it names a float literal whose
    /// printed form `facts` lacks, the request for that form is returned in
    /// its place.
    pub fn message(&self, facts: &FloatFacts) -> (r: Result<String, FloatQuery>)
        ensures
            match r {
                Ok(s) => self@.message(facts@) == Ok::<Seq<char>, FloatQueryView>(s@),
                Err(q) => self@.message(facts@) == Err::<Seq<char>, FloatQueryView>(q@),
            },
    {
        match self.tt.to_string(facts) {
            Ok(printed) => {
                let mut s = String::from_str("can't convert ");
                push_text(&mut s, printed.as_str());
                match self.wanted {
                    Wanted::Type => push_text(&mut s, " to type"),
                    Wanted::Operator => push_text(&mut s, " to operator"),
                }
                Ok(s)
            },
            Err(q) => Err(q),
        }
    }
}

/// A token: its kind and the characters `[start, end)` of the text that it
/// was read from.
#[derive(Clone, Debug, PartialEq, Eq)]
pub struct Token {
    tt: TT,
    start: usize,
    end: usize,
}

/// A token as a mathematical value.
pub struct Lexeme {
    pub tt: Kind,
    pub start: usize,
    pub end: usize,
}

impl View for Token {
    type V = Lexeme;

    closed spec fn view(&self) -> Lexeme {
        Lexeme { tt: self.tt@, start: self.start, end: self.end }
    }
}

impl Token {
    /// The token of kind `tt` that was read from `[start, end)`.
    pub fn new(start: usize, end: usize, tt: TT) -> (token: Self)
        ensures
            token@ == (Lexeme { tt: tt@, start, end }),
    {
        Self { tt, start, end }
    }

    pub fn get_start(&self) -> (start: &usize)
        ensures
            *start == self@.start,
    {
        &self.start
    }

    pub fn get_end(&self) -> (end: &usize)
        ensures
            *end == self@.end,
    {
        &self.end
    }

    pub fn get_tt(&self) -> (tt: &TT)
        ensures
            tt@ == self@.tt,
    {
        &self.tt
    }

    /// A copy of the token.
    pub fn duplicate(&self) -> (r: Token)
        ensures
            r@ == self@,
    {
        Token { tt: self.tt.duplicate(), start: self.start, end: self.end }
    }
}

/// The views of a run of tokens.
pub open spec fn lexemes(tokens: Seq<Token>) -> Seq<Lexeme> {
    tokens.map_values(|t: Token| t@)
}

} // verus!
