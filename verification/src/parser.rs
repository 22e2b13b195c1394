//! The parser: from tokens to a syntax tree.
//!
//! From the loosest binding to the tightest:
//!
//! ```text
//! expr        := "let" IDENT "=" expr | logic_or
//! logic_or    := logic_expr ( ("&&"|"||") logic_expr )*
//! logic_expr  := "!" logic_expr | comparison
//! comparison  := arithm_expr ( ("=="|"!="|"<"|"<="|">"|">=") arithm_expr )*
//! arithm_expr := term ( ("+"|"-") term )*
//! term        := factor ( ("*"|"/"|"%") factor )*
//! factor      := "-" factor | power
//! power       := atom ( "^" factor )*
//! atom        := NUMBER | IDENT | "(" expr ")"
//! ```
//!
//! Every chain of operators groups from the left, `^` too: `2 ^ 3 ^ 2` is
//! `(2 ^ 3) ^ 2`. The `factor` behind a `^` is therefore read without a chain
//! of its own: any number of `-`, then an `atom`.

use vstd::prelude::*;
use crate::float::{Facts, FloatFacts, FloatQuery, FloatQueryView};
use crate::keyword::Keyword;
use crate::lexer::{carets, get_line_by_char_index, push_carets, source_line};
use crate::node::{Expr, Node};
use crate::op::Op;
use crate::text::{chars_of, push_text, string_of};
use crate::token::{lexemes, Kind, Lexeme, Token, TT};
use crate::types::Type;

verus! {

/// What the parser missed.
#[derive(Clone, Copy, PartialEq, Eq, Structural, Debug)]
pub enum Expected {
    /// One more token, where the tokens have run out.
    Token,
    /// A closing parenthesis.
    Rpr,
    /// A number, a name or an opening parenthesis.
    Atom,
    /// The name that a declaration binds.
    Identifier,
    /// The `=` of a declaration.
    Eq,
    /// The end of the input, or an operator that continues the expression.
    End,
}

impl Expected {
    /// The message for what was missed.
    pub open spec fn message(self) -> Seq<char> {
        match self {
            Expected::Token => "can't parse one more token, reached end"@,
            Expected::Rpr => "expected ')'"@,
            Expected::Atom => "expected int or float"@,
            Expected::Identifier => "expected indentifier"@,
            Expected::Eq => "expected EQ"@,
            Expected::End => "expected '+', '-', '/', '*', '^' or '%'"@,
        }
    }

    /// The message for what was missed.
    pub fn to_string(&self) -> (s: String)
        ensures
            s@ == self.message(),
    {
        match self {
            Expected::Token => String::from_str("can't parse one more token, reached end"),
            Expected::Rpr => String::from_str("expected ')'"),
            Expected::Atom => String::from_str("expected int or float"),
            Expected::Identifier => String::from_str("expected indentifier"),
            Expected::Eq => String::from_str("expected EQ"),
            Expected::End => String::from_str("expected '+', '-', '/', '*', '^' or '%'"),
        }
    }
}

/// A level of the grammar at which operators are chained.
#[derive(Clone, Copy, PartialEq, Eq, Structural, Debug)]
pub enum Level {
    /// `&&` and `||` between `logic_expr`.
    Logic,
    /// `==`, `!=`, `<`, `<=`, `>`, `>=` between `arithm_expr`.
    Comparison,
    /// `+` and `-` between `term`.
    Sum,
    /// `*`, `/` and `%` between `factor`.
    Product,
    /// `^` between an `atom` on the left and, on the right, `factor`s that
    /// hold no `^` of their own.
    Power,
}

impl Level {
    /// Whether `op` is chained at this level.
    pub open spec fn accepts(self, op: Op) -> bool {
        match self {
            Level::Logic => op == Op::And || op == Op::Or,
            Level::Comparison => op.is_comparison(),
            Level::Sum => op == Op::Add || op == Op::Sub,
            Level::Product => op == Op::Devd || op == Op::Mult || op == Op::Remain,
            Level::Power => op == Op::Pow,
        }
    }

    /// Whether `op` is chained at this level.
    pub fn takes(&self, op: &Op) -> (r: bool)
        ensures
            r == self.accepts(*op),
    {
        match self {
            Level::Logic => match op {
                Op::And | Op::Or => true,
                _ => false,
            },
            Level::Comparison => op.logical(),
            Level::Sum => match op {
                Op::Add | Op::Sub => true,
                _ => false,
            },
            Level::Product => match op {
                Op::Devd | Op::Mult | Op::Remain => true,
                _ => false,
            },
            Level::Power => match op {
                Op::Pow => true,
                _ => false,
            },
        }
    }

    /// The place of the level's chain in the order of the grammar's rules:
    /// a rule only calls rules of lower rank without reading a token first.
    pub open spec fn rank(self) -> int {
        match self {
            Level::Logic => 19,
            Level::Comparison => 16,
            Level::Sum => 13,
            Level::Product => 10,
            Level::Power => 6,
        }
    }
}

/// The result of parsing from some token on: a tree and the index of the
/// first token behind it, or what was missed and the index of the offending
/// token.
pub enum Parsed {
    Tree(Expr, int),
    Failure(Expected, int),
}

/// The kind of the token at `pos`, if there is one.
pub open spec fn kind_at(tokens: Seq<Lexeme>, pos: int) -> Option<Kind> {
    if 0 <= pos < tokens.len() {
        Some(tokens[pos].tt)
    } else {
        None
    }
}

/// The index of the token that an error at `pos` names: that of the token at
/// `pos`, or of the last one where the tokens have run out.
pub open spec fn blamed(tokens: Seq<Lexeme>, pos: int) -> int {
    if 0 <= pos < tokens.len() {
        pos
    } else {
        tokens.len() - 1
    }
}

/// `to` lies behind `from` and not behind the end of the tokens. Every tree
/// ends behind the token at which it starts; the rules below ask for it
/// where they go on behind a tree.
pub open spec fn ahead(tokens: Seq<Lexeme>, from: int, to: int) -> bool {
    from < to <= tokens.len()
}

/// The last token is the end-of-input token.
pub open spec fn ends_with_eof(tokens: Seq<Lexeme>) -> bool {
    tokens.len() > 0 && tokens.last().tt == Kind::EOF
}

/// A parser that went from `start` to `end` has not passed an end-of-input
/// token that stands last: where the tokens end with one and `start` is a
/// token, `end` is one too.
pub open spec fn kept(tokens: Seq<Lexeme>, start: int, end: int) -> bool {
    ends_with_eof(tokens) && start < tokens.len() ==> end < tokens.len()
}

/// `expr := "let" IDENT "=" expr | logic_or`
pub open spec fn spec_expr(tokens: Seq<Lexeme>, pos: int) -> Parsed
    decreases tokens.len() - pos, 20int,
{
    if kind_at(tokens, pos) == Some(Kind::Keyword(Keyword::Let)) {
        spec_variable(tokens, pos + 1)
    } else {
        chain(tokens, pos, Level::Logic)
    }
}

/// What follows `let`: a name, `=` and the expression that gives the value.
pub open spec fn spec_variable(tokens: Seq<Lexeme>, pos: int) -> Parsed
    decreases tokens.len() - pos, 3int,
{
    match kind_at(tokens, pos) {
        Some(Kind::Indenifier(name)) => if kind_at(tokens, pos + 1) == Some(Kind::EQ) {
            match spec_expr(tokens, pos + 2) {
                Parsed::Tree(value, end) => Parsed::Tree(
                    Expr::DeclareVar(name, Box::new(value)),
                    end,
                ),
                failure => failure,
            }
        } else {
            Parsed::Failure(Expected::Eq, blamed(tokens, pos + 1))
        },
        _ => Parsed::Failure(Expected::Identifier, blamed(tokens, pos)),
    }
}

/// A chain of the operators of `level`: an operand, then any number of
/// operators, each with its right operand, grouped from the left.
pub open spec fn chain(tokens: Seq<Lexeme>, pos: int, level: Level) -> Parsed
    decreases tokens.len() - pos, level.rank(),
{
    match operand(tokens, pos, level) {
        Parsed::Tree(left, end) => if ahead(tokens, pos, end) {
            tail(tokens, end, level, left)
        } else {
            Parsed::Failure(Expected::Token, blamed(tokens, pos))
        },
        failure => failure,
    }
}

/// The rest of a chain behind `left`.
pub open spec fn tail(tokens: Seq<Lexeme>, pos: int, level: Level, left: Expr) -> Parsed
    decreases tokens.len() - pos, 0int,
{
    match kind_at(tokens, pos) {
        Some(Kind::Op(op)) => if level.accepts(op) {
            match right_operand(tokens, pos + 1, level) {
                Parsed::Tree(right, end) => if ahead(tokens, pos, end) {
                    tail(tokens, end, level, Expr::BinOp(Box::new(left), op, Box::new(right)))
                } else {
                    Parsed::Failure(Expected::Token, blamed(tokens, pos))
                },
                failure => failure,
            }
        } else {
            Parsed::Tree(left, pos)
        },
        _ => Parsed::Tree(left, pos),
    }
}

/// The first operand of a chain.
pub open spec fn operand(tokens: Seq<Lexeme>, pos: int, level: Level) -> Parsed
    decreases tokens.len() - pos, level.rank() - 1,
{
    match level {
        Level::Logic => spec_logic_expr(tokens, pos),
        Level::Comparison => chain(tokens, pos, Level::Sum),
        Level::Sum => chain(tokens, pos, Level::Product),
        Level::Product => spec_factor(tokens, pos),
        Level::Power => spec_atom(tokens, pos),
    }
}

/// An operand behind an operator: of the same rule as the first one, but
/// for `^`, whose right operand may have a sign.
pub open spec fn right_operand(tokens: Seq<Lexeme>, pos: int, level: Level) -> Parsed
    decreases tokens.len() - pos, 21int,
{
    if level == Level::Power {
        spec_exponent(tokens, pos)
    } else {
        operand(tokens, pos, level)
    }
}

/// The operand behind a `^`: a `factor` that holds no `^` of its own, which
/// is any number of `-` and an `atom`. The next `^` so belongs to the chain
/// that this operand stands in, and the chain groups from the left.
pub open spec fn spec_exponent(tokens: Seq<Lexeme>, pos: int) -> Parsed
    decreases tokens.len() - pos, 5int,
{
    match kind_at(tokens, pos) {
        None => Parsed::Failure(Expected::Token, blamed(tokens, pos)),
        Some(Kind::Op(Op::Sub)) => match spec_exponent(tokens, pos + 1) {
            Parsed::Tree(inner, end) => Parsed::Tree(Expr::UnaryOp(Box::new(inner)), end),
            failure => failure,
        },
        _ => spec_atom(tokens, pos),
    }
}

/// `logic_expr := "!" logic_expr | comparison`
pub open spec fn spec_logic_expr(tokens: Seq<Lexeme>, pos: int) -> Parsed
    decreases tokens.len() - pos, 17int,
{
    if kind_at(tokens, pos) == Some(Kind::Op(Op::Not)) {
        match spec_logic_expr(tokens, pos + 1) {
            Parsed::Tree(inner, end) => Parsed::Tree(Expr::NotOp(Box::new(inner)), end),
            failure => failure,
        }
    } else {
        chain(tokens, pos, Level::Comparison)
    }
}

/// `factor := "-" factor | power`
pub open spec fn spec_factor(tokens: Seq<Lexeme>, pos: int) -> Parsed
    decreases tokens.len() - pos, 8int,
{
    match kind_at(tokens, pos) {
        None => Parsed::Failure(Expected::Token, blamed(tokens, pos)),
        Some(Kind::Op(Op::Sub)) => match spec_factor(tokens, pos + 1) {
            Parsed::Tree(inner, end) => Parsed::Tree(Expr::UnaryOp(Box::new(inner)), end),
            failure => failure,
        },
        _ => chain(tokens, pos, Level::Power),
    }
}

/// `atom := NUMBER | IDENT | "(" expr ")"`
pub open spec fn spec_atom(tokens: Seq<Lexeme>, pos: int) -> Parsed
    decreases tokens.len() - pos, 4int,
{
    match kind_at(tokens, pos) {
        None => Parsed::Failure(Expected::Token, blamed(tokens, pos)),
        Some(Kind::Type(Type::Int(i))) => Parsed::Tree(Expr::Number(Type::Int(i)), pos + 1),
        Some(Kind::Type(Type::Float(f))) => Parsed::Tree(Expr::Number(Type::Float(f)), pos + 1),
        Some(Kind::Indenifier(name)) => Parsed::Tree(Expr::GetVar(name), pos + 1),
        Some(Kind::LPR) => match spec_expr(tokens, pos + 1) {
            Parsed::Tree(inner, end) => if kind_at(tokens, end) == Some(Kind::RPR) {
                Parsed::Tree(inner, end + 1)
            } else {
                Parsed::Failure(Expected::Rpr, blamed(tokens, end))
            },
            failure => failure,
        },
        _ => Parsed::Failure(Expected::Atom, pos),
    }
}

/// The index of the token behind the expression that starts at `pos`: where
/// the parse is a success, that of the end-of-input token that ends it.
pub open spec fn parsed_to(tokens: Seq<Lexeme>, pos: int) -> int {
    match spec_expr(tokens, pos) {
        Parsed::Tree(_, end) => end,
        Parsed::Failure(_, _) => pos,
    }
}

/// The tree of the whole run of tokens from `pos` on: an expression, and
/// behind it the end-of-input token.
pub open spec fn spec_parse(tokens: Seq<Lexeme>, pos: int) -> Result<Expr, (Expected, int)> {
    match spec_expr(tokens, pos) {
        Parsed::Tree(tree, end) => if kind_at(tokens, end) == Some(Kind::EOF) {
            Ok(tree)
        } else {
            Err((Expected::End, blamed(tokens, end)))
        },
        Parsed::Failure(expected, at) => Err((expected, at)),
    }
}

/// A tree ends behind the token at which it starts, so the rules never take
/// the branch that asks for it in vain, and it does not reach over an
/// end-of-input token that stands last; and an error names a token that
/// exists.
pub proof fn expr_advances(tokens: Seq<Lexeme>, pos: int)
    requires
        0 <= pos <= tokens.len(),
        tokens.len() > 0,
    ensures
        sound(tokens, pos, spec_expr(tokens, pos)),
    decreases tokens.len() - pos, 20int,
{
    if kind_at(tokens, pos) == Some(Kind::Keyword(Keyword::Let)) {
        variable_advances(tokens, pos + 1);
    } else {
        chain_advances(tokens, pos, Level::Logic);
    }
}

/// A successful parse ends at an end-of-input token, which it does not pass;
/// where the only end-of-input token stands last, it ends at the last token.
pub proof fn parse_ends_at_eof(tokens: Seq<Lexeme>, pos: int)
    requires
        0 <= pos <= tokens.len(),
        tokens.len() > 0,
        spec_parse(tokens, pos) is Ok,
    ensures
        pos < parsed_to(tokens, pos) < tokens.len(),
        kind_at(tokens, parsed_to(tokens, pos)) == Some(Kind::EOF),
        (forall|i: int| 0 <= i < tokens.len() - 1 ==> (#[trigger] tokens[i]).tt != Kind::EOF)
            ==> parsed_to(tokens, pos) == tokens.len() - 1,
{
    expr_advances(tokens, pos);
}

/// What [`expr_advances`] says of a result: a tree that started at `pos`
/// ends behind it and has not passed an end-of-input token that stands last;
/// an error names one of the tokens.
pub open spec fn sound(tokens: Seq<Lexeme>, pos: int, parsed: Parsed) -> bool {
    match parsed {
        Parsed::Tree(_, end) => ahead(tokens, pos, end) && kept(tokens, pos, end),
        Parsed::Failure(_, at) => 0 <= at < tokens.len(),
    }
}

proof fn variable_advances(tokens: Seq<Lexeme>, pos: int)
    requires
        0 <= pos <= tokens.len(),
        tokens.len() > 0,
    ensures
        sound(tokens, pos, spec_variable(tokens, pos)),
    decreases tokens.len() - pos, 3int,
{
    match kind_at(tokens, pos) {
        Some(Kind::Indenifier(_)) => {
            if kind_at(tokens, pos + 1) == Some(Kind::EQ) {
                expr_advances(tokens, pos + 2);
            }
        },
        _ => {},
    }
}

proof fn chain_advances(tokens: Seq<Lexeme>, pos: int, level: Level)
    requires
        0 <= pos <= tokens.len(),
        tokens.len() > 0,
    ensures
        sound(tokens, pos, chain(tokens, pos, level)),
    decreases tokens.len() - pos, level.rank(),
{
    operand_advances(tokens, pos, level);
    match operand(tokens, pos, level) {
        Parsed::Tree(left, end) => {
            tail_advances(tokens, end, level, left);
        },
        _ => {},
    }
}

proof fn tail_advances(tokens: Seq<Lexeme>, pos: int, level: Level, left: Expr)
    requires
        0 <= pos <= tokens.len(),
        tokens.len() > 0,
    ensures
        match tail(tokens, pos, level, left) {
            Parsed::Tree(_, end) => pos <= end <= tokens.len() && kept(tokens, pos, end),
            Parsed::Failure(_, at) => 0 <= at < tokens.len(),
        },
    decreases tokens.len() - pos, 0int,
{
    match kind_at(tokens, pos) {
        Some(Kind::Op(op)) => {
            if level.accepts(op) {
                right_operand_advances(tokens, pos + 1, level);
                match right_operand(tokens, pos + 1, level) {
                    Parsed::Tree(right, end) => {
                        tail_advances(
                            tokens,
                            end,
                            level,
                            Expr::BinOp(Box::new(left), op, Box::new(right)),
                        );
                    },
                    _ => {},
                }
            }
        },
        _ => {},
    }
}

proof fn operand_advances(tokens: Seq<Lexeme>, pos: int, level: Level)
    requires
        0 <= pos <= tokens.len(),
        tokens.len() > 0,
    ensures
        sound(tokens, pos, operand(tokens, pos, level)),
    decreases tokens.len() - pos, level.rank() - 1,
{
    match level {
        Level::Logic => logic_expr_advances(tokens, pos),
        Level::Comparison => chain_advances(tokens, pos, Level::Sum),
        Level::Sum => chain_advances(tokens, pos, Level::Product),
        Level::Product => factor_advances(tokens, pos),
        Level::Power => atom_advances(tokens, pos),
    }
}

proof fn right_operand_advances(tokens: Seq<Lexeme>, pos: int, level: Level)
    requires
        0 <= pos <= tokens.len(),
        tokens.len() > 0,
    ensures
        sound(tokens, pos, right_operand(tokens, pos, level)),
    decreases tokens.len() - pos, 21int,
{
    if level == Level::Power {
        exponent_advances(tokens, pos);
    } else {
        operand_advances(tokens, pos, level);
    }
}

proof fn exponent_advances(tokens: Seq<Lexeme>, pos: int)
    requires
        0 <= pos <= tokens.len(),
        tokens.len() > 0,
    ensures
        sound(tokens, pos, spec_exponent(tokens, pos)),
    decreases tokens.len() - pos, 5int,
{
    match kind_at(tokens, pos) {
        None => {},
        Some(Kind::Op(Op::Sub)) => {
            exponent_advances(tokens, pos + 1);
        },
        _ => {
            atom_advances(tokens, pos);
        },
    }
}

proof fn logic_expr_advances(tokens: Seq<Lexeme>, pos: int)
    requires
        0 <= pos <= tokens.len(),
        tokens.len() > 0,
    ensures
        sound(tokens, pos, spec_logic_expr(tokens, pos)),
    decreases tokens.len() - pos, 17int,
{
    if kind_at(tokens, pos) == Some(Kind::Op(Op::Not)) {
        logic_expr_advances(tokens, pos + 1);
    } else {
        chain_advances(tokens, pos, Level::Comparison);
    }
}

proof fn factor_advances(tokens: Seq<Lexeme>, pos: int)
    requires
        0 <= pos <= tokens.len(),
        tokens.len() > 0,
    ensures
        sound(tokens, pos, spec_factor(tokens, pos)),
    decreases tokens.len() - pos, 8int,
{
    match kind_at(tokens, pos) {
        None => {},
        Some(Kind::Op(Op::Sub)) => {
            factor_advances(tokens, pos + 1);
        },
        _ => {
            chain_advances(tokens, pos, Level::Power);
        },
    }
}

proof fn atom_advances(tokens: Seq<Lexeme>, pos: int)
    requires
        0 <= pos <= tokens.len(),
        tokens.len() > 0,
    ensures
        sound(tokens, pos, spec_atom(tokens, pos)),
    decreases tokens.len() - pos, 4int,
{
    match kind_at(tokens, pos) {
        Some(Kind::LPR) => {
            expr_advances(tokens, pos + 1);
        },
        _ => {},
    }
}

/// A parse error: what was missed, and the token at which it was missed.
#[derive(Clone, Debug, PartialEq, Eq)]
pub struct ParserError {
    token: Token,
    err: Expected,
}

pub struct ParserErrorView {
    pub token: Lexeme,
    pub err: Expected,
}

impl View for ParserError {
    type V = ParserErrorView;

    closed spec fn view(&self) -> ParserErrorView {
        ParserErrorView { token: self.token@, err: self.err }
    }
}

impl ParserErrorView {
    /// The line of `text` in which the token starts, a caret under each of
    /// its characters, then the text of the token, its printed form and what
    /// was missed. Where the token is a float literal whose printed form
    /// `facts` lacks, the request for that form.
    pub open spec fn format(self, text: Seq<char>, facts: Facts) -> Result<
        Seq<char>,
        FloatQueryView,
    > {
        let line = source_line(text, self.token.start as int);
        match self.token.tt.rendering(facts) {
            Ok(printed) => Ok(
                "...\n"@ + line + "\n"@ + carets(line.len()) + "\nParser error on \""@
                    + text.subrange(self.token.start as int, self.token.end as int)
                    + "\", token - "@ + printed + ": "@ + self.err.message() + "\n..."@,
            ),
            Err(q) => Err(q),
        }
    }
}

impl ParserError {
    /// The error that `err` was missed at `token`.
    pub fn new(token: Token, err: Expected) -> (e: Self)
        ensures
            e@ == (ParserErrorView { token: token@, err }),
    {
        Self { token, err }
    }

    /// The offending token.
    pub fn get_token(&self) -> (token: &Token)
        ensures
            token@ == self@.token,
    {
        &self.token
    }

    /// What was missed.
    pub fn get_err(&self) -> (err: Expected)
        ensures
            err == self@.err,
    {
        self.err
    }

    /// The error as a message about `text`, the text that the tokens were
    /// read from: the token lies inside it.
    pub fn format(&self, text: &str, facts: &FloatFacts) -> (r: Result<String, FloatQuery>)
        requires
            self@.token.start <= self@.token.end <= text@.len(),
        ensures
            match r {
                Ok(s) => self@.format(text@, facts@) == Ok::<Seq<char>, FloatQueryView>(s@),
                Err(q) => self@.format(text@, facts@) == Err::<Seq<char>, FloatQueryView>(q@),
            },
    {
        let printed = match self.token.get_tt().to_string(facts) {
            Ok(printed) => printed,
            Err(q) => {
                return Err(q);
            },
        };
        let chars = chars_of(text);
        let start = *self.token.get_start();
        let end = *self.token.get_end();
        let mut s = String::from_str("...\n");
        match get_line_by_char_index(chars.as_slice(), start) {
            Some(line) => {
                push_text(&mut s, string_of(line, 0, line.len()).as_str());
                push_text(&mut s, "\n");
                push_carets(&mut s, line.len());
                assert(line@.subrange(0, line@.len() as int) == line@);
            },
            None => {
                push_text(&mut s, "\n");
                assert(carets(0) =~= Seq::<char>::empty());
                assert(s@ =~= "...\n"@ + Seq::<char>::empty() + "\n"@ + carets(0));
            },
        }
        push_text(&mut s, "\nParser error on \"");
        push_text(&mut s, string_of(chars.as_slice(), start, end).as_str());
        push_text(&mut s, "\", token - ");
        push_text(&mut s, printed.as_str());
        push_text(&mut s, ": ");
        push_text(&mut s, self.err.to_string().as_str());
        push_text(&mut s, "\n...");
        Ok(s)
    }
}

/// Whether the result `r` of a rule, which started at `start` and left the
/// parser at `end`, is what `parsed` says: the same tree, ending at the same
/// token behind `start`; or the same error at the same token. Either way the
/// parser has not passed an end-of-input token that stands last.
pub open spec fn agrees(
    tokens: Seq<Lexeme>,
    parsed: Parsed,
    r: Result<Node, ParserError>,
    start: int,
    end: int,
) -> bool {
    &&& kept(tokens, start, end)
    &&& match parsed {
        Parsed::Tree(tree, next) => r matches Ok(node) && node@ == tree && end == next && ahead(
            tokens,
            start,
            next,
        ),
        Parsed::Failure(expected, at) => r matches Err(e) && 0 <= at < tokens.len() && e@ == (
        ParserErrorView { token: tokens[at], err: expected }),
    }
}

/// A parser: a run of tokens and a place in it.
pub struct Parser<'t> {
    tokens: &'t [Token],
    pos: usize,
    ct: Option<&'t Token>,
}

impl<'t> Parser<'t> {
    /// The tokens that are parsed.
    pub closed spec fn tokens(&self) -> Seq<Lexeme> {
        lexemes(self.tokens@)
    }

    /// The index of the current token.
    pub closed spec fn pos(&self) -> int {
        self.pos as int
    }

    /// The current token; nothing behind the last one.
    pub closed spec fn ct(&self) -> Option<Lexeme> {
        match self.ct {
            Some(token) => Some(token@),
            None => None,
        }
    }

    /// There is at least one token, and the current token is the one at the
    /// place. The place may lie behind the last token, where there is no
    /// current token.
    pub open spec fn wf(&self) -> bool {
        &&& 0 < self.tokens().len() <= usize::MAX
        &&& 0 <= self.pos()
        &&& self.ct() == (if self.pos() < self.tokens().len() {
            Some(self.tokens()[self.pos()])
        } else {
            None
        })
    }

    /// A parser at the first of `tokens`, of which there is at least one.
    pub fn new(tokens: &'t [Token]) -> (parser: Self)
        requires
            tokens@.len() > 0,
        ensures
            parser.wf(),
            parser.tokens() == lexemes(tokens@),
            parser.pos() == 0,
    {
        Self { tokens, pos: 0, ct: Some(&tokens[0]) }
    }

    /// Moves to the next place, also behind the last token.
    pub fn step(&mut self)
        requires
            old(self).wf(),
            old(self).pos() < usize::MAX,
        ensures
            final(self).wf(),
            final(self).tokens() == old(self).tokens(),
            final(self).pos() == old(self).pos() + 1,
    {
        self.pos += 1;
        self.ct = if self.pos < self.tokens.len() {
            Some(&self.tokens[self.pos])
        } else {
            None
        };
    }

    /// The error that `expected` was missed at the current token, or at the
    /// last one where the tokens have run out.
    fn missed(&self, expected: Expected) -> (e: ParserError)
        requires
            self.wf(),
        ensures
            e@ == (ParserErrorView {
                token: self.tokens()[blamed(self.tokens(), self.pos())],
                err: expected,
            }),
    {
        let token = match self.ct {
            Some(token) => token.duplicate(),
            None => self.tokens[self.tokens.len() - 1].duplicate(),
        };
        ParserError { token, err: expected }
    }

    /// `atom := NUMBER | IDENT | "(" expr ")"`
    pub fn atom(&mut self) -> (r: Result<Node, ParserError>)
        requires
            old(self).wf(),
        ensures
            final(self).wf(),
            final(self).tokens() == old(self).tokens(),
            agrees(
                old(self).tokens(),
                spec_atom(old(self).tokens(), old(self).pos()),
                r,
                old(self).pos(),
                final(self).pos(),
            ),
        decreases old(self).tokens().len() - old(self).pos(), 40int,
    {
        let ct = match self.ct {
            Some(ct) => ct,
            None => {
                return Err(self.missed(Expected::Token));
            },
        };
        match ct.get_tt() {
            TT::Type(Type::Int(i)) => {
                self.step();
                Ok(Node::Number(Type::Int(*i)))
            },
            TT::Type(Type::Float(f)) => {
                self.step();
                Ok(Node::Number(Type::Float(*f)))
            },
            TT::Indenifier(name) => {
                self.step();
                Ok(Node::GetVar(name.clone()))
            },
            TT::LPR => {
                self.step();
                let expr = match self.expr() {
                    Ok(expr) => expr,
                    Err(e) => {
                        return Err(e);
                    },
                };
                let closed = match self.ct {
                    Some(token) => match token.get_tt() {
                        TT::RPR => true,
                        _ => false,
                    },
                    None => false,
                };
                if closed {
                    self.step();
                    Ok(expr)
                } else {
                    Err(self.missed(Expected::Rpr))
                }
            },
            _ => Err(self.missed(Expected::Atom)),
        }
    }

    /// `power := atom ( "^" factor )*`, grouped from the left.
    pub fn power(&mut self) -> (r: Result<Node, ParserError>)
        requires
            old(self).wf(),
        ensures
            final(self).wf(),
            final(self).tokens() == old(self).tokens(),
            agrees(
                old(self).tokens(),
                chain(old(self).tokens(), old(self).pos(), Level::Power),
                r,
                old(self).pos(),
                final(self).pos(),
            ),
        decreases old(self).tokens().len() - old(self).pos(), 70int,
    {
        self.bin_op(Level::Power)
    }

    /// `factor := "-" factor | power`
    pub fn factor(&mut self) -> (r: Result<Node, ParserError>)
        requires
            old(self).wf(),
        ensures
            final(self).wf(),
            final(self).tokens() == old(self).tokens(),
            agrees(
                old(self).tokens(),
                spec_factor(old(self).tokens(), old(self).pos()),
                r,
                old(self).pos(),
                final(self).pos(),
            ),
        decreases old(self).tokens().len() - old(self).pos(), 80int,
    {
        let ct = match self.ct {
            Some(ct) => ct,
            None => {
                return Err(self.missed(Expected::Token));
            },
        };
        if let TT::Op(Op::Sub) = ct.get_tt() {
            self.step();
            return match self.factor() {
                Ok(factor) => Ok(Node::UnaryOp(Box::new(factor))),
                Err(e) => Err(e),
            };
        }
        self.power()
    }

    /// `term := factor ( ("*"|"/"|"%") factor )*`
    pub fn term(&mut self) -> (r: Result<Node, ParserError>)
        requires
            old(self).wf(),
        ensures
            final(self).wf(),
            final(self).tokens() == old(self).tokens(),
            agrees(
                old(self).tokens(),
                chain(old(self).tokens(), old(self).pos(), Level::Product),
                r,
                old(self).pos(),
                final(self).pos(),
            ),
        decreases old(self).tokens().len() - old(self).pos(), 110int,
    {
        self.bin_op_same(Level::Product)
    }

    /// `logic_expr := "!" logic_expr | comparison`
    pub fn logic_expr(&mut self) -> (r: Result<Node, ParserError>)
        requires
            old(self).wf(),
        ensures
            final(self).wf(),
            final(self).tokens() == old(self).tokens(),
            agrees(
                old(self).tokens(),
                spec_logic_expr(old(self).tokens(), old(self).pos()),
                r,
                old(self).pos(),
                final(self).pos(),
            ),
        decreases old(self).tokens().len() - old(self).pos(), 170int,
    {
        let negated = match self.ct {
            Some(token) => match token.get_tt() {
                TT::Op(Op::Not) => true,
                _ => false,
            },
            None => false,
        };
        if negated {
            self.step();
            return match self.logic_expr() {
                Ok(node) => Ok(Node::NotOp(Box::new(node))),
                Err(e) => Err(e),
            };
        }
        self.bin_op_same(Level::Comparison)
    }

    /// `arithm_expr := term ( ("+"|"-") term )*`
    pub fn arithm_expr(&mut self) -> (r: Result<Node, ParserError>)
        requires
            old(self).wf(),
        ensures
            final(self).wf(),
            final(self).tokens() == old(self).tokens(),
            agrees(
                old(self).tokens(),
                chain(old(self).tokens(), old(self).pos(), Level::Sum),
                r,
                old(self).pos(),
                final(self).pos(),
            ),
        decreases old(self).tokens().len() - old(self).pos(), 140int,
    {
        self.bin_op_same(Level::Sum)
    }

    /// `expr := "let" IDENT "=" expr | logic_or`
    pub fn expr(&mut self) -> (r: Result<Node, ParserError>)
        requires
            old(self).wf(),
        ensures
            final(self).wf(),
            final(self).tokens() == old(self).tokens(),
            agrees(
                old(self).tokens(),
                spec_expr(old(self).tokens(), old(self).pos()),
                r,
                old(self).pos(),
                final(self).pos(),
            ),
        decreases old(self).tokens().len() - old(self).pos(), 200int,
    {
        let declares = match self.ct {
            Some(token) => match token.get_tt() {
                TT::Keyword(Keyword::Let) => true,
                _ => false,
            },
            None => false,
        };
        if declares {
            self.step();
            return match self.parse_variable() {
                Ok((name, value)) => Ok(Node::DeclareVar(name, Box::new(value))),
                Err(e) => Err(e),
            };
        }
        self.bin_op_same(Level::Logic)
    }

    /// Parses the whole run of tokens from the current place on: an
    /// expression, and behind it the end-of-input token.
    pub fn parse(&mut self) -> (r: Result<Node, ParserError>)
        requires
            old(self).wf(),
        ensures
            final(self).wf(),
            final(self).tokens() == old(self).tokens(),
            kept(old(self).tokens(), old(self).pos(), final(self).pos()),
            match spec_parse(old(self).tokens(), old(self).pos()) {
                Ok(tree) => r matches Ok(node) && node@ == tree && final(self).pos() == parsed_to(
                    old(self).tokens(),
                    old(self).pos(),
                ) && kind_at(final(self).tokens(), final(self).pos()) == Some(Kind::EOF),
                Err((expected, at)) => r matches Err(e) && 0 <= at < old(self).tokens().len()
                    && e@ == (ParserErrorView { token: old(self).tokens()[at], err: expected }),
            },
    {
        let node = match self.expr() {
            Ok(node) => node,
            Err(e) => {
                return Err(e);
            },
        };
        let ended = match self.ct {
            Some(token) => match token.get_tt() {
                TT::EOF => true,
                _ => false,
            },
            None => false,
        };
        if ended {
            Ok(node)
        } else {
            Err(self.missed(Expected::End))
        }
    }

    /// What follows `let`: a name, `=` and the expression that gives the
    /// value.
    fn parse_variable(&mut self) -> (r: Result<(String, Node), ParserError>)
        requires
            old(self).wf(),
        ensures
            final(self).wf(),
            final(self).tokens() == old(self).tokens(),
            kept(old(self).tokens(), old(self).pos(), final(self).pos()),
            match spec_variable(old(self).tokens(), old(self).pos()) {
                Parsed::Tree(tree, next) => r matches Ok((name, value)) && tree
                    == Expr::DeclareVar(name@, Box::new(value@)) && final(self).pos() == next
                    && ahead(old(self).tokens(), old(self).pos(), next),
                Parsed::Failure(expected, at) => r matches Err(e) && 0 <= at < old(
                    self,
                ).tokens().len() && e@ == (
                ParserErrorView { token: old(self).tokens()[at], err: expected }),
            },
        decreases old(self).tokens().len() - old(self).pos(), 30int,
    {
        let name = match self.ct {
            Some(token) => match token.get_tt() {
                TT::Indenifier(name) => Some(name.clone()),
                _ => None,
            },
            None => None,
        };
        let name = match name {
            Some(name) => name,
            None => {
                return Err(self.missed(Expected::Identifier));
            },
        };
        self.step();
        let assigns = match self.ct {
            Some(token) => match token.get_tt() {
                TT::EQ => true,
                _ => false,
            },
            None => false,
        };
        if !assigns {
            return Err(self.missed(Expected::Eq));
        }
        self.step();
        match self.expr() {
            Ok(expr) => Ok((name, expr)),
            Err(e) => Err(e),
        }
    }

    /// The first operand of a chain of `level`.
    fn operand(&mut self, level: Level) -> (r: Result<Node, ParserError>)
        requires
            old(self).wf(),
        ensures
            final(self).wf(),
            final(self).tokens() == old(self).tokens(),
            agrees(
                old(self).tokens(),
                operand(old(self).tokens(), old(self).pos(), level),
                r,
                old(self).pos(),
                final(self).pos(),
            ),
        decreases old(self).tokens().len() - old(self).pos(), level.rank() * 10 - 10,
    {
        match level {
            Level::Logic => self.logic_expr(),
            Level::Comparison => self.arithm_expr(),
            Level::Sum => self.term(),
            Level::Product => self.factor(),
            Level::Power => self.atom(),
        }
    }

    /// The operand behind a `^`: any number of `-`, then an atom.
    pub fn exponent(&mut self) -> (r: Result<Node, ParserError>)
        requires
            old(self).wf(),
        ensures
            final(self).wf(),
            final(self).tokens() == old(self).tokens(),
            agrees(
                old(self).tokens(),
                spec_exponent(old(self).tokens(), old(self).pos()),
                r,
                old(self).pos(),
                final(self).pos(),
            ),
        decreases old(self).tokens().len() - old(self).pos(), 45int,
    {
        let ct = match self.ct {
            Some(ct) => ct,
            None => {
                return Err(self.missed(Expected::Token));
            },
        };
        if let TT::Op(Op::Sub) = ct.get_tt() {
            self.step();
            return match self.exponent() {
                Ok(inner) => Ok(Node::UnaryOp(Box::new(inner))),
                Err(e) => Err(e),
            };
        }
        self.atom()
    }

    /// An operand behind an operator of `level`.
    fn right_operand(&mut self, level: Level) -> (r: Result<Node, ParserError>)
        requires
            old(self).wf(),
        ensures
            final(self).wf(),
            final(self).tokens() == old(self).tokens(),
            agrees(
                old(self).tokens(),
                right_operand(old(self).tokens(), old(self).pos(), level),
                r,
                old(self).pos(),
                final(self).pos(),
            ),
        decreases old(self).tokens().len() - old(self).pos(), 210int,
    {
        match level {
            Level::Power => self.exponent(),
            _ => self.operand(level),
        }
    }

    /// A chain of the operators of `level`, grouped from the left.
    fn bin_op(&mut self, level: Level) -> (r: Result<Node, ParserError>)
        requires
            old(self).wf(),
        ensures
            final(self).wf(),
            final(self).tokens() == old(self).tokens(),
            agrees(
                old(self).tokens(),
                chain(old(self).tokens(), old(self).pos(), level),
                r,
                old(self).pos(),
                final(self).pos(),
            ),
        decreases old(self).tokens().len() - old(self).pos(), level.rank() * 10,
    {
        let mut left = match self.operand(level) {
            Ok(node) => node,
            Err(e) => {
                return Err(e);
            },
        };
        loop
            invariant
                self.wf(),
                self.tokens() == old(self).tokens(),
                ahead(self.tokens(), old(self).pos(), self.pos()),
                kept(self.tokens(), old(self).pos(), self.pos()),
                chain(old(self).tokens(), old(self).pos(), level) == tail(
                    self.tokens(),
                    self.pos(),
                    level,
                    left@,
                ),
            ensures
                self.wf(),
                self.tokens() == old(self).tokens(),
                ahead(self.tokens(), old(self).pos(), self.pos()),
                kept(self.tokens(), old(self).pos(), self.pos()),
                chain(old(self).tokens(), old(self).pos(), level) == Parsed::Tree(
                    left@,
                    self.pos(),
                ),
            decreases self.tokens().len() - self.pos(),
        {
            let op = match self.ct {
                Some(token) => match token.get_tt() {
                    TT::Op(op) => Some(*op),
                    _ => None,
                },
                None => None,
            };
            let op = match op {
                Some(op) => op,
                None => {
                    break ;
                },
            };
            if !level.takes(&op) {
                break ;
            }
            self.step();
            let right = match self.right_operand(level) {
                Ok(node) => node,
                Err(e) => {
                    return Err(e);
                },
            };
            left = Node::BinOp(Box::new(left), op, Box::new(right));
        }
        Ok(left)
    }

    /// A chain of the operators of `level` whose operands are all of one
    /// rule: any level but that of `^`.
    fn bin_op_same(&mut self, level: Level) -> (r: Result<Node, ParserError>)
        requires
            old(self).wf(),
            level != Level::Power,
        ensures
            final(self).wf(),
            final(self).tokens() == old(self).tokens(),
            agrees(
                old(self).tokens(),
                chain(old(self).tokens(), old(self).pos(), level),
                r,
                old(self).pos(),
                final(self).pos(),
            ),
        decreases old(self).tokens().len() - old(self).pos(), level.rank() * 10 + 5,
    {
        self.bin_op(level)
    }
}

} // verus!
