//! What holds of the pipeline as a whole.

use vstd::prelude::*;
use crate::error::RuntimeErrorView;
use crate::float::{first_literal, first_result, BinaryFact, Facts, LiteralFactView};
use crate::keyword::Keyword;
use crate::lexer::{
    digits_end, digits_end_bounds, lex, scan, scan_advances, scan_number, LexErrorView, Scan,
};
use crate::node::{eval, Evaluated, Expr};
use crate::op::Op;
use crate::parser::{
    ahead, blamed, chain, kind_at, operand, right_operand, spec_atom, spec_exponent, spec_expr,
    spec_factor, spec_logic_expr, spec_parse, tail, Expected, Level, Parsed,
};
use crate::symbol_table::{declared, resolve, Scope};
use crate::text::{
    all_digits, digit_char, digit_value, is_digit, numeral, numeral_value, signed_numeral,
};
use crate::token::{Kind, Lexeme};
use crate::types::Type;

verus! {

/// The value of a text: its tokens, parsed and evaluated in `scopes`.
/// Nothing where the text is no run of tokens or the tokens are no
/// expression.
pub open spec fn value_of(text: Seq<char>, scopes: Seq<Scope>, facts: Facts) -> Option<
    Result<Type, RuntimeErrorView>,
> {
    match lex(text, 0, facts) {
        Ok(tokens) => match spec_parse(tokens, 0) {
            Ok(tree) => Some(eval(tree, scopes, facts).result),
            Err(_) => None,
        },
        Err(_) => None,
    }
}

/// The decimal numeral of a number is a run of digits that denotes the
/// number.
pub proof fn numeral_denotes(n: nat)
    ensures
        numeral(n).len() > 0,
        all_digits(numeral(n)),
        numeral_value(numeral(n)) == n,
    decreases n,
{
    if n >= 10 {
        numeral_denotes(n / 10);
        let s = numeral(n);
        assert(s.drop_last() =~= numeral(n / 10));
        assert(digit_value(digit_char(n % 10)) == n % 10);
        assert forall|i: int| 0 <= i < s.len() implies is_digit(#[trigger] s[i]) by {
            if i < s.len() - 1 {
                assert(s[i] == numeral(n / 10)[i]);
            }
        }
    } else {
        let s = numeral(n);
        assert(s.drop_last() =~= Seq::<char>::empty());
        assert(numeral_value(s.drop_last()) == 0);
        assert(digit_value(digit_char(n)) == n);
    }
}

/// Ten to the power `k`.
spec fn power_of_ten(k: nat) -> nat
    decreases k,
{
    if k == 0 {
        1
    } else {
        10 * power_of_ten((k - 1) as nat)
    }
}

/// A number below ten to the power `k` has a numeral of at most `k` digits.
proof fn numeral_length(n: nat, k: nat)
    requires
        k >= 1,
        n < power_of_ten(k),
    ensures
        numeral(n).len() <= k,
    decreases k,
{
    if n >= 10 {
        assert(power_of_ten(1) == 10) by {
            reveal_with_fuel(power_of_ten, 2);
        }
        numeral_length(n / 10, (k - 1) as nat);
    }
}

/// The numeral of a number that fits in 128 bits has at most 39 digits.
proof fn numeral_is_short(n: nat)
    requires
        n <= i128::MAX,
    ensures
        numeral(n).len() <= 39,
{
    assert(power_of_ten(39) == 1_000_000_000_000_000_000_000_000_000_000_000_000_000nat) by {
        reveal_with_fuel(power_of_ten, 40);
    }
    numeral_length(n, 39);
}

/// A run of digits ends where the text ends.
proof fn digits_to_the_end(text: Seq<char>, pos: int)
    requires
        0 <= pos <= text.len(),
        forall|i: int| pos <= i < text.len() ==> is_digit(#[trigger] text[i]),
    ensures
        digits_end(text, pos) == text.len(),
    decreases text.len() - pos,
{
    if pos < text.len() {
        digits_to_the_end(text, pos + 1);
    }
}

/// A tree that a `factor` gives and that no operator follows is the whole
/// expression from there on, unless the expression starts with `let` or `!`.
proof fn factor_alone(tokens: Seq<Lexeme>, pos: int, tree: Expr, end: int)
    requires
        spec_factor(tokens, pos) == Parsed::Tree(tree, end),
        ahead(tokens, pos, end),
        !(kind_at(tokens, end) is Some && kind_at(tokens, end)->0 is Op),
        kind_at(tokens, pos) != Some(Kind::Keyword(Keyword::Let)),
        kind_at(tokens, pos) != Some(Kind::Op(Op::Not)),
    ensures
        spec_expr(tokens, pos) == Parsed::Tree(tree, end),
{
    assert(operand(tokens, pos, Level::Product) == Parsed::Tree(tree, end));
    assert(tail(tokens, end, Level::Product, tree) == Parsed::Tree(tree, end));
    assert(chain(tokens, pos, Level::Product) == Parsed::Tree(tree, end));
    assert(operand(tokens, pos, Level::Sum) == Parsed::Tree(tree, end));
    assert(tail(tokens, end, Level::Sum, tree) == Parsed::Tree(tree, end));
    assert(chain(tokens, pos, Level::Sum) == Parsed::Tree(tree, end));
    assert(operand(tokens, pos, Level::Comparison) == Parsed::Tree(tree, end));
    assert(tail(tokens, end, Level::Comparison, tree) == Parsed::Tree(tree, end));
    assert(chain(tokens, pos, Level::Comparison) == Parsed::Tree(tree, end));
    assert(spec_logic_expr(tokens, pos) == Parsed::Tree(tree, end));
    assert(operand(tokens, pos, Level::Logic) == Parsed::Tree(tree, end));
    assert(tail(tokens, end, Level::Logic, tree) == Parsed::Tree(tree, end));
    assert(chain(tokens, pos, Level::Logic) == Parsed::Tree(tree, end));
}

/// The tokens of a literal alone are the literal.
proof fn literal_alone(tokens: Seq<Lexeme>, value: Type)
    requires
        tokens.len() == 2,
        tokens[0].tt == Kind::Type(value),
        value is Int || value is Float,
        tokens[1].tt == Kind::EOF,
    ensures
        spec_parse(tokens, 0) == Ok::<Expr, (Expected, int)>(Expr::Number(value)),
{
    let tree = Expr::Number(value);
    assert(kind_at(tokens, 0) == Some(Kind::Type(value)));
    assert(kind_at(tokens, 1) == Some(Kind::EOF));
    assert(spec_atom(tokens, 0) == Parsed::Tree(tree, 1));
    assert(operand(tokens, 0, Level::Power) == Parsed::Tree(tree, 1));
    assert(tail(tokens, 1, Level::Power, tree) == Parsed::Tree(tree, 1));
    assert(chain(tokens, 0, Level::Power) == Parsed::Tree(tree, 1));
    assert(spec_factor(tokens, 0) == Parsed::Tree(tree, 1));
    factor_alone(tokens, 0, tree, 1);
}

/// An integer literal evaluates to the integer that it denotes: a text of
/// decimal digits alone, which denote no more than `i128::MAX`, is one
/// token, parses as a literal and has that number as its value.
pub proof fn integer_literal_is_its_value(text: Seq<char>, scopes: Seq<Scope>, facts: Facts)
    requires
        0 < text.len() <= usize::MAX,
        all_digits(text),
        numeral_value(text) <= i128::MAX,
    ensures
        value_of(text, scopes, facts) == Some(
            Ok::<Type, RuntimeErrorView>(Type::Int(numeral_value(text) as i128)),
        ),
        eval(Expr::Number(Type::Int(numeral_value(text) as i128)), scopes, facts).scopes == scopes,
{
    let value = Type::Int(numeral_value(text) as i128);
    let len = text.len() as int;
    digits_to_the_end(text, 0);
    assert(text.subrange(0, len) =~= text);
    assert(scan(text, 0, facts) == Scan::Token(Kind::Type(value), len));
    let first = Lexeme { tt: Kind::Type(value), start: 0, end: len as usize };
    let last = Lexeme { tt: Kind::EOF, start: len as usize, end: len as usize };
    assert(lex(text, len, facts) == Ok::<Seq<Lexeme>, (LexErrorView, int)>(seq![last]));
    let tokens = seq![first] + seq![last];
    assert(lex(text, 0, facts) == Ok::<Seq<Lexeme>, (LexErrorView, int)>(tokens));
    literal_alone(tokens, value);
}

/// The decimal numeral of every number up to `i128::MAX` evaluates to that
/// number.
pub proof fn numeral_is_its_value(n: nat, scopes: Seq<Scope>, facts: Facts)
    requires
        n <= i128::MAX,
    ensures
        value_of(numeral(n), scopes, facts) == Some(
            Ok::<Type, RuntimeErrorView>(Type::Int(n as i128)),
        ),
{
    numeral_denotes(n);
    numeral_is_short(n);
    integer_literal_is_its_value(numeral(n), scopes, facts);
}

/// The decimal numeral of every negative number down to `-i128::MAX`
/// evaluates to that number: its tokens are a minus sign and a literal, which
/// parse as the negation of the literal. The numeral of `i128::MIN` is no run
/// of tokens, because its digits denote more than `i128::MAX`.
pub proof fn negative_numeral_is_its_value(i: int, scopes: Seq<Scope>, facts: Facts)
    requires
        -i128::MAX <= i < 0,
    ensures
        value_of(signed_numeral(i), scopes, facts) == Some(
            Ok::<Type, RuntimeErrorView>(Type::Int(i as i128)),
        ),
{
    let n = (-i) as nat;
    let text = signed_numeral(i);
    let len = text.len() as int;
    let value = Type::Int(n as i128);
    numeral_denotes(n);
    numeral_is_short(n);
    assert(text[0] == '-');
    assert forall|k: int| 1 <= k < len implies is_digit(#[trigger] text[k]) by {
        assert(text[k] == numeral(n)[k - 1]);
    }
    digits_to_the_end(text, 1);
    assert(text.subrange(1, len) =~= numeral(n));
    assert(scan(text, 0, facts) == Scan::Token(Kind::Op(Op::Sub), 1));
    assert(scan(text, 1, facts) == Scan::Token(Kind::Type(value), len));
    let minus = Lexeme { tt: Kind::Op(Op::Sub), start: 0, end: 1 };
    let literal = Lexeme { tt: Kind::Type(value), start: 1, end: len as usize };
    let last = Lexeme { tt: Kind::EOF, start: len as usize, end: len as usize };
    assert(lex(text, len, facts) == Ok::<Seq<Lexeme>, (LexErrorView, int)>(seq![last]));
    assert(lex(text, 1, facts) == Ok::<Seq<Lexeme>, (LexErrorView, int)>(
        seq![literal] + seq![last],
    ));
    let tokens = seq![minus] + (seq![literal] + seq![last]);
    assert(lex(text, 0, facts) == Ok::<Seq<Lexeme>, (LexErrorView, int)>(tokens));
    let number = Expr::Number(value);
    let tree = Expr::UnaryOp(Box::new(number));
    assert(kind_at(tokens, 0) == Some(Kind::Op(Op::Sub)));
    assert(kind_at(tokens, 1) == Some(Kind::Type(value)));
    assert(kind_at(tokens, 2) == Some(Kind::EOF));
    assert(spec_atom(tokens, 1) == Parsed::Tree(number, 2));
    assert(operand(tokens, 1, Level::Power) == Parsed::Tree(number, 2));
    assert(tail(tokens, 2, Level::Power, number) == Parsed::Tree(number, 2));
    assert(chain(tokens, 1, Level::Power) == Parsed::Tree(number, 2));
    assert(spec_factor(tokens, 1) == Parsed::Tree(number, 2));
    assert(spec_factor(tokens, 0) == Parsed::Tree(tree, 2));
    factor_alone(tokens, 0, tree, 2);
    assert(eval(number, scopes, facts).result == Ok::<Type, RuntimeErrorView>(value));
    assert(eval(tree, scopes, facts).result == value.negation());
}

/// A literal with exactly one decimal point evaluates to the float that the
/// table of float facts holds for it: a text of digits, a point and digits
/// alone is one token, parses as a literal and has that float as its value.
pub proof fn float_literal_is_its_value(
    text: Seq<char>,
    point: int,
    bits: u64,
    scopes: Seq<Scope>,
    facts: Facts,
)
    requires
        0 < point < text.len() <= usize::MAX,
        text[point] == '.',
        forall|i: int| 0 <= i < text.len() && i != point ==> is_digit(#[trigger] text[i]),
        facts.literal(text) == Some(Some(bits)),
    ensures
        value_of(text, scopes, facts) == Some(Ok::<Type, RuntimeErrorView>(Type::Float(bits))),
{
    let value = Type::Float(bits);
    let len = text.len() as int;
    digits_end_bounds(text, 0);
    let whole = digits_end(text, 0);
    assert(whole == point) by {
        if whole > point {
            assert(is_digit(text.subrange(0, whole)[point]));
        }
    }
    digits_to_the_end(text, point + 1);
    assert(text.subrange(0, len) =~= text);
    assert(scan_number(text, 0, facts) == Scan::Token(Kind::Type(value), len));
    let first = Lexeme { tt: Kind::Type(value), start: 0, end: len as usize };
    let last = Lexeme { tt: Kind::EOF, start: len as usize, end: len as usize };
    assert(lex(text, len, facts) == Ok::<Seq<Lexeme>, (LexErrorView, int)>(seq![last]));
    let tokens = seq![first] + seq![last];
    assert(lex(text, 0, facts) == Ok::<Seq<Lexeme>, (LexErrorView, int)>(tokens));
    literal_alone(tokens, value);
}

/// A second decimal point in a literal is an error, whatever follows it: a
/// text that starts with digits, a point, any digits and a second point is
/// no run of tokens, and reading stops at the second point.
pub proof fn second_point_is_refused(text: Seq<char>, first: int, second: int, facts: Facts)
    requires
        0 < first < second < text.len(),
        text[first] == '.',
        text[second] == '.',
        forall|i: int| 0 <= i < second && i != first ==> is_digit(#[trigger] text[i]),
    ensures
        lex(text, 0, facts) == Err::<Seq<Lexeme>, (LexErrorView, int)>(
            (LexErrorView::SecondDot(text.subrange(0, second)), second),
        ),
{
    digits_end_bounds(text, 0);
    let whole = digits_end(text, 0);
    assert(whole == first) by {
        if whole > first {
            assert(is_digit(text.subrange(0, whole)[first]));
        }
    }
    digits_end_bounds(text, first + 1);
    let end = digits_end(text, first + 1);
    assert(end == second) by {
        if end > second {
            assert(is_digit(text.subrange(first + 1, end)[second - first - 1]));
        }
    }
}

/// A name that was declared resolves to the value that it was given, and
/// declaring touches no scope but the innermost.
pub proof fn declared_name_resolves(scopes: Seq<Scope>, name: Seq<char>, value: Type)
    requires
        scopes.len() > 0,
    ensures
        resolve(declared(scopes, name, value), name) == Some(value),
        declared(scopes, name, value).drop_first() == scopes.drop_first(),
        forall|other: Seq<char>|
            other != name ==> resolve(declared(scopes, name, value), other) == resolve(
                scopes,
                other,
            ),
{
    let after = declared(scopes, name, value);
    assert(after.drop_first() =~= scopes.drop_first());
    assert forall|other: Seq<char>| other != name implies resolve(after, other) == resolve(
        scopes,
        other,
    ) by {}
}

/// A reference to a name that a declaration bound gives the value of the
/// declaration's expression.
pub proof fn declaration_is_seen(
    name: Seq<char>,
    value: Expr,
    scopes: Seq<Scope>,
    facts: Facts,
)
    requires
        scopes.len() > 0,
        eval(value, scopes, facts).result is Ok,
    ensures
        ({
            let declaration = eval(Expr::DeclareVar(name, Box::new(value)), scopes, facts);
            &&& declaration.result == Ok::<Type, RuntimeErrorView>(Type::Unit)
            &&& eval(Expr::GetVar(name), declaration.scopes, facts).result == eval(
                value,
                scopes,
                facts,
            ).result
        }),
{
    scopes_stay(value, scopes, facts);
    let given = eval(value, scopes, facts);
    declared_name_resolves(given.scopes, name, given.result->Ok_0);
}

/// Evaluation neither adds nor drops a scope.
pub proof fn scopes_stay(tree: Expr, scopes: Seq<Scope>, facts: Facts)
    requires
        scopes.len() > 0,
    ensures
        eval(tree, scopes, facts).scopes.len() == scopes.len(),
    decreases tree,
{
    match tree {
        Expr::Number(_) => {},
        Expr::GetVar(_) => {},
        Expr::UnaryOp(inner) => {
            scopes_stay(*inner, scopes, facts);
        },
        Expr::NotOp(inner) => {
            scopes_stay(*inner, scopes, facts);
        },
        Expr::DeclareVar(_, value) => {
            scopes_stay(*value, scopes, facts);
        },
        Expr::BinOp(left, _, right) => {
            scopes_stay(*left, scopes, facts);
            scopes_stay(*right, eval(*left, scopes, facts).scopes, facts);
        },
    }
}

/// A name that is bound in no scope is not found.
pub proof fn unbound_name_is_not_found(name: Seq<char>, scopes: Seq<Scope>, facts: Facts)
    requires
        forall|i: int| 0 <= i < scopes.len() ==> !(#[trigger] scopes[i]).dom().contains(name),
    ensures
        eval(Expr::GetVar(name), scopes, facts).result == Err::<Type, RuntimeErrorView>(
            RuntimeErrorView::NotFound(name),
        ),
    decreases scopes.len(),
{
    if scopes.len() > 0 {
        unbound_name_is_not_found(name, scopes.drop_first(), facts);
    }
}

/// Declaring a name again replaces its value: the scopes are those of the
/// second declaration alone.
pub proof fn redeclaring_replaces(scopes: Seq<Scope>, name: Seq<char>, first: Type, second: Type)
    requires
        scopes.len() > 0,
    ensures
        declared(declared(scopes, name, first), name, second) == declared(scopes, name, second),
{
    assert(scopes[0].insert(name, first).insert(name, second) =~= scopes[0].insert(name, second));
    assert(declared(declared(scopes, name, first), name, second) =~= declared(
        scopes,
        name,
        second,
    ));
}

/// An arithmetic operator on an integer and a float is a mismatch, in either
/// order, unless it is a division or remainder by zero, which is refused
/// first.
pub proof fn mixed_numbers_mismatch(op: Op, i: i128, f: u64, facts: Facts)
    requires
        op.is_arithmetic(),
    ensures
        op.applied(Type::Int(i), Type::Float(f), facts) == Err::<Type, RuntimeErrorView>(
            if (op == Op::Devd || op == Op::Remain) && Type::Float(f).zero() {
                RuntimeErrorView::ZeroDivisor(op, Type::Int(i), Type::Float(f))
            } else {
                RuntimeErrorView::Mismatch(op, Type::Int(i), Type::Float(f))
            },
        ),
        op.applied(Type::Float(f), Type::Int(i), facts) == Err::<Type, RuntimeErrorView>(
            if (op == Op::Devd || op == Op::Remain) && i == 0 {
                RuntimeErrorView::ZeroDivisor(op, Type::Float(f), Type::Int(i))
            } else {
                RuntimeErrorView::Mismatch(op, Type::Float(f), Type::Int(i))
            },
        ),
{
}

/// Division and remainder by zero are refused whatever the operands' types
/// are.
pub proof fn zero_divisor_is_refused(op: Op, a: Type, b: Type, facts: Facts)
    requires
        op == Op::Devd || op == Op::Remain,
        b.zero(),
    ensures
        op.applied(a, b, facts) == Err::<Type, RuntimeErrorView>(
            RuntimeErrorView::ZeroDivisor(op, a, b),
        ),
{
}

/// Evaluation is a function of the tree, the scopes and the float facts:
/// one tree evaluated in equal scopes gives equal results and leaves equal
/// scopes. Labels and line numbers of the contexts play no part.
pub proof fn evaluation_repeats(tree: Expr, first: Seq<Scope>, second: Seq<Scope>, facts: Facts)
    requires
        first =~= second,
    ensures
        eval(tree, first, facts) == eval(tree, second, facts),
{
}

/// The facts of `before`, in their order, are the first facts of `after`:
/// the host has only added to the table.
pub open spec fn grown(before: Facts, after: Facts) -> bool {
    &&& before.literals.is_prefix_of(after.literals)
    &&& before.results.is_prefix_of(after.results)
    &&& before.texts.is_prefix_of(after.texts)
}

proof fn result_stands(before: Seq<BinaryFact>, after: Seq<BinaryFact>, op: Op, x: u64, y: u64)
    requires
        before.is_prefix_of(after),
        first_result(before, op, x, y) is Some,
    ensures
        first_result(after, op, x, y) == first_result(before, op, x, y),
    decreases before.len(),
{
    if before.len() > 0 {
        assert(after[0] == before[0]);
        if !(before[0].op == op && before[0].left == x && before[0].right == y) {
            assert(before.drop_first().is_prefix_of(after.drop_first()));
            result_stands(before.drop_first(), after.drop_first(), op, x, y);
        }
    }
}

proof fn literal_stands(
    before: Seq<LiteralFactView>,
    after: Seq<LiteralFactView>,
    text: Seq<char>,
)
    requires
        before.is_prefix_of(after),
        first_literal(before, text) is Some,
    ensures
        first_literal(after, text) == first_literal(before, text),
    decreases before.len(),
{
    if before.len() > 0 {
        assert(after[0] == before[0]);
        if before[0].text != text {
            assert(before.drop_first().is_prefix_of(after.drop_first()));
            literal_stands(before.drop_first(), after.drop_first(), text);
        }
    }
}

/// An operation that did not wait for a float fact gives the same result
/// when the table has grown.
pub proof fn applied_stands(op: Op, a: Type, b: Type, before: Facts, after: Facts)
    requires
        grown(before, after),
        !(op.applied(a, b, before) matches Err(RuntimeErrorView::AskFloat(_, _, _))),
    ensures
        op.applied(a, b, after) == op.applied(a, b, before),
{
    match (a, b) {
        (Type::Float(x), Type::Float(y)) => {
            if before.result(op, x, y) is Some {
                result_stands(before.results, after.results, op, x, y);
            }
        },
        _ => {},
    }
}

/// A finished evaluation stands: an evaluation that did not wait for a float
/// fact gives the same result, and leaves the same scopes, when the table
/// has grown. So the host may answer the requests one by one and run again,
/// and what it learns later changes nothing that was settled.
pub proof fn evaluation_stands(tree: Expr, scopes: Seq<Scope>, before: Facts, after: Facts)
    requires
        grown(before, after),
        !(eval(tree, scopes, before).result matches Err(RuntimeErrorView::AskFloat(_, _, _))),
    ensures
        eval(tree, scopes, after) == eval(tree, scopes, before),
    decreases tree,
{
    match tree {
        Expr::Number(_) => {},
        Expr::GetVar(_) => {},
        Expr::UnaryOp(inner) => {
            evaluation_stands(*inner, scopes, before, after);
        },
        Expr::NotOp(inner) => {
            evaluation_stands(*inner, scopes, before, after);
        },
        Expr::DeclareVar(_, value) => {
            evaluation_stands(*value, scopes, before, after);
        },
        Expr::BinOp(left, op, right) => {
            let first = eval(*left, scopes, before);
            evaluation_stands(*left, scopes, before, after);
            match first.result {
                Ok(a) => {
                    let second = eval(*right, first.scopes, before);
                    evaluation_stands(*right, first.scopes, before, after);
                    match second.result {
                        Ok(b) => {
                            applied_stands(op, a, b, before, after);
                        },
                        Err(_) => {},
                    }
                },
                Err(_) => {},
            }
        },
    }
}

/// A finished lexing stands: a text whose lexing did not wait for a float
/// fact has the same tokens, or the same error, when the table has grown.
pub proof fn lexing_stands(text: Seq<char>, pos: int, before: Facts, after: Facts)
    requires
        grown(before, after),
        0 <= pos,
        !(lex(text, pos, before) matches Err((LexErrorView::AskFloat(_), _))),
    ensures
        lex(text, pos, after) == lex(text, pos, before),
    decreases text.len() - pos,
{
    if pos >= text.len() {
    } else if text[pos] == ' ' || text[pos] == '\t' {
        lexing_stands(text, pos + 1, before, after);
    } else {
        scan_advances(text, pos, before);
        let whole = digits_end(text, pos);
        if is_digit(text[pos]) && whole < text.len() && text[whole] == '.' {
            let literal = text.subrange(pos, digits_end(text, whole + 1));
            if before.literal(literal) is Some {
                literal_stands(before.literals, after.literals, literal);
            }
        }
        assert(scan(text, pos, after) == scan(text, pos, before));
        match scan(text, pos, before) {
            Scan::Token(_, end) => {
                lexing_stands(text, end, before, after);
            },
            Scan::Failure(_, _) => {},
        }
    }
}

/// An evaluation asks only for what the table lacks: the request that it
/// stops with is for an operation of which the table has no result. Once the
/// host has added the result, no evaluation stops with that request again.
pub proof fn asks_for_what_is_missing(tree: Expr, scopes: Seq<Scope>, facts: Facts)
    ensures
        eval(tree, scopes, facts).result matches Err(RuntimeErrorView::AskFloat(op, x, y))
            ==> facts.result(op, x, y) is None,
    decreases tree,
{
    match tree {
        Expr::Number(_) => {},
        Expr::GetVar(_) => {},
        Expr::UnaryOp(inner) => {
            asks_for_what_is_missing(*inner, scopes, facts);
        },
        Expr::NotOp(inner) => {
            asks_for_what_is_missing(*inner, scopes, facts);
        },
        Expr::DeclareVar(_, value) => {
            asks_for_what_is_missing(*value, scopes, facts);
        },
        Expr::BinOp(left, op, right) => {
            asks_for_what_is_missing(*left, scopes, facts);
            asks_for_what_is_missing(*right, eval(*left, scopes, facts).scopes, facts);
        },
    }
}

/// Lexing asks only for what the table lacks: the literal that it stops at is
/// one of which the table has no value.
pub proof fn lexing_asks_for_what_is_missing(text: Seq<char>, pos: int, facts: Facts)
    requires
        0 <= pos,
    ensures
        lex(text, pos, facts) matches Err((LexErrorView::AskFloat(literal), _))
            ==> facts.literal(literal) is None,
    decreases text.len() - pos,
{
    if pos >= text.len() {
    } else if text[pos] == ' ' || text[pos] == '\t' {
        lexing_asks_for_what_is_missing(text, pos + 1, facts);
    } else {
        scan_advances(text, pos, facts);
        match scan(text, pos, facts) {
            Scan::Token(_, end) => {
                lexing_asks_for_what_is_missing(text, end, facts);
            },
            Scan::Failure(_, _) => {},
        }
    }
}

/// The level at which an operator between two operands is chained. `!`
/// stands between no operands and has none.
spec fn level_of(op: Op) -> Option<Level> {
    if Level::Power.accepts(op) {
        Some(Level::Power)
    } else if Level::Product.accepts(op) {
        Some(Level::Product)
    } else if Level::Sum.accepts(op) {
        Some(Level::Sum)
    } else if Level::Comparison.accepts(op) {
        Some(Level::Comparison)
    } else if Level::Logic.accepts(op) {
        Some(Level::Logic)
    } else {
        None
    }
}

/// Whether the token at `pos` is an operator that `level` or a level that
/// binds tighter chains.
spec fn continues(tokens: Seq<Lexeme>, pos: int, level: Level) -> bool {
    kind_at(tokens, pos) matches Some(Kind::Op(op)) && level_of(op) matches Some(l) && l.rank()
        <= level.rank()
}

/// A literal that no operator of `level` or of a tighter level follows is, at
/// `level`, a chain of its own.
proof fn literal_chain(tokens: Seq<Lexeme>, pos: int, value: Type, level: Level)
    requires
        kind_at(tokens, pos) == Some(Kind::Type(value)),
        value is Int || value is Float,
        !continues(tokens, pos + 1, level),
    ensures
        chain(tokens, pos, level) == Parsed::Tree(Expr::Number(value), pos + 1),
        operand(tokens, pos, level) == Parsed::Tree(Expr::Number(value), pos + 1),
{
    let tree = Expr::Number(value);
    let end = pos + 1;
    assert(spec_atom(tokens, pos) == Parsed::Tree(tree, end));
    assert(operand(tokens, pos, Level::Power) == Parsed::Tree(tree, end));
    assert(tail(tokens, end, Level::Power, tree) == Parsed::Tree(tree, end));
    assert(chain(tokens, pos, Level::Power) == Parsed::Tree(tree, end));
    if level != Level::Power {
        assert(spec_factor(tokens, pos) == Parsed::Tree(tree, end));
        assert(operand(tokens, pos, Level::Product) == Parsed::Tree(tree, end));
        assert(tail(tokens, end, Level::Product, tree) == Parsed::Tree(tree, end));
        assert(chain(tokens, pos, Level::Product) == Parsed::Tree(tree, end));
        if level != Level::Product {
            assert(operand(tokens, pos, Level::Sum) == Parsed::Tree(tree, end));
            assert(tail(tokens, end, Level::Sum, tree) == Parsed::Tree(tree, end));
            assert(chain(tokens, pos, Level::Sum) == Parsed::Tree(tree, end));
            if level != Level::Sum {
                assert(operand(tokens, pos, Level::Comparison) == Parsed::Tree(tree, end));
                assert(tail(tokens, end, Level::Comparison, tree) == Parsed::Tree(tree, end));
                assert(chain(tokens, pos, Level::Comparison) == Parsed::Tree(tree, end));
                if level != Level::Comparison {
                    assert(spec_logic_expr(tokens, pos) == Parsed::Tree(tree, end));
                    assert(operand(tokens, pos, Level::Logic) == Parsed::Tree(tree, end));
                    assert(tail(tokens, end, Level::Logic, tree) == Parsed::Tree(tree, end));
                    assert(chain(tokens, pos, Level::Logic) == Parsed::Tree(tree, end));
                }
            }
        }
    }
}

/// A chain that starts at a literal and that no operator follows is the whole
/// expression from there on.
proof fn chain_alone(tokens: Seq<Lexeme>, pos: int, value: Type, level: Level, tree: Expr, end: int)
    requires
        kind_at(tokens, pos) == Some(Kind::Type(value)),
        chain(tokens, pos, level) == Parsed::Tree(tree, end),
        ahead(tokens, pos, end),
        !(kind_at(tokens, end) is Some && kind_at(tokens, end)->0 is Op),
    ensures
        spec_expr(tokens, pos) == Parsed::Tree(tree, end),
{
    if level == Level::Power {
        assert(spec_factor(tokens, pos) == Parsed::Tree(tree, end));
        assert(operand(tokens, pos, Level::Product) == Parsed::Tree(tree, end));
        assert(tail(tokens, end, Level::Product, tree) == Parsed::Tree(tree, end));
    }
    assert(chain(tokens, pos, Level::Product) == Parsed::Tree(tree, end) || level.rank()
        > Level::Product.rank());
    if level.rank() <= Level::Product.rank() {
        assert(operand(tokens, pos, Level::Sum) == Parsed::Tree(tree, end));
        assert(tail(tokens, end, Level::Sum, tree) == Parsed::Tree(tree, end));
    }
    assert(chain(tokens, pos, Level::Sum) == Parsed::Tree(tree, end) || level.rank()
        > Level::Sum.rank());
    if level.rank() <= Level::Sum.rank() {
        assert(operand(tokens, pos, Level::Comparison) == Parsed::Tree(tree, end));
        assert(tail(tokens, end, Level::Comparison, tree) == Parsed::Tree(tree, end));
    }
    assert(chain(tokens, pos, Level::Comparison) == Parsed::Tree(tree, end) || level.rank()
        > Level::Comparison.rank());
    if level.rank() <= Level::Comparison.rank() {
        assert(spec_logic_expr(tokens, pos) == Parsed::Tree(tree, end));
        assert(operand(tokens, pos, Level::Logic) == Parsed::Tree(tree, end));
        assert(tail(tokens, end, Level::Logic, tree) == Parsed::Tree(tree, end));
    }
    assert(chain(tokens, pos, Level::Logic) == Parsed::Tree(tree, end));
}

/// The level that binds next tighter than `level`.
spec fn tighter(level: Level) -> Level {
    match level {
        Level::Logic => Level::Comparison,
        Level::Comparison => Level::Sum,
        Level::Sum => Level::Product,
        _ => Level::Power,
    }
}

/// An operator between two literals parses as that operator on them, and the
/// value of the text is the operator applied to the two values.
pub proof fn operator_between_literals(
    tokens: Seq<Lexeme>,
    a: Type,
    op: Op,
    b: Type,
    scopes: Seq<Scope>,
    facts: Facts,
)
    requires
        tokens.len() == 4,
        tokens[0].tt == Kind::Type(a),
        tokens[1].tt == Kind::Op(op),
        tokens[2].tt == Kind::Type(b),
        tokens[3].tt == Kind::EOF,
        a is Int || a is Float,
        b is Int || b is Float,
        op != Op::Not,
    ensures
        spec_parse(tokens, 0) == Ok::<Expr, (Expected, int)>(
            Expr::BinOp(Box::new(Expr::Number(a)), op, Box::new(Expr::Number(b))),
        ),
        eval(
            Expr::BinOp(Box::new(Expr::Number(a)), op, Box::new(Expr::Number(b))),
            scopes,
            facts,
        ) == (Evaluated { result: op.applied(a, b, facts), scopes }),
{
    let left = Expr::Number(a);
    let right = Expr::Number(b);
    let tree = Expr::BinOp(Box::new(left), op, Box::new(right));
    let level = level_of(op)->0;
    assert(level_of(op) is Some);
    assert(kind_at(tokens, 0) == Some(Kind::Type(a)));
    assert(kind_at(tokens, 1) == Some(Kind::Op(op)));
    assert(kind_at(tokens, 2) == Some(Kind::Type(b)));
    assert(kind_at(tokens, 3) == Some(Kind::EOF));
    if level == Level::Power {
        assert(spec_atom(tokens, 0) == Parsed::Tree(left, 1));
        assert(spec_atom(tokens, 2) == Parsed::Tree(right, 3));
        assert(spec_exponent(tokens, 2) == Parsed::Tree(right, 3));
    } else {
        literal_chain(tokens, 0, a, tighter(level));
        literal_chain(tokens, 2, b, tighter(level));
        if level == Level::Product {
            assert(spec_factor(tokens, 0) == Parsed::Tree(left, 1));
            assert(spec_factor(tokens, 2) == Parsed::Tree(right, 3));
        }
        if level == Level::Logic {
            assert(spec_logic_expr(tokens, 0) == Parsed::Tree(left, 1));
            assert(spec_logic_expr(tokens, 2) == Parsed::Tree(right, 3));
        }
    }
    assert(operand(tokens, 0, level) == Parsed::Tree(left, 1));
    assert(right_operand(tokens, 2, level) == Parsed::Tree(right, 3));
    assert(tail(tokens, 3, level, tree) == Parsed::Tree(tree, 3));
    assert(tail(tokens, 1, level, left) == Parsed::Tree(tree, 3));
    assert(chain(tokens, 0, level) == Parsed::Tree(tree, 3));
    chain_alone(tokens, 0, a, level, tree, 3);
    assert(eval(left, scopes, facts) == (Evaluated { result: Ok(a), scopes }));
    assert(eval(right, scopes, facts) == (Evaluated { result: Ok(b), scopes }));
}

/// A chain of `^` groups from the left: `a ^ b ^ c` parses as `(a ^ b) ^ c`.
pub proof fn power_chain_groups_left(tokens: Seq<Lexeme>, a: Type, b: Type, c: Type)
    requires
        tokens.len() == 6,
        tokens[0].tt == Kind::Type(a),
        tokens[1].tt == Kind::Op(Op::Pow),
        tokens[2].tt == Kind::Type(b),
        tokens[3].tt == Kind::Op(Op::Pow),
        tokens[4].tt == Kind::Type(c),
        tokens[5].tt == Kind::EOF,
        a is Int || a is Float,
        b is Int || b is Float,
        c is Int || c is Float,
    ensures
        spec_parse(tokens, 0) == Ok::<Expr, (Expected, int)>(
            Expr::BinOp(
                Box::new(
                    Expr::BinOp(Box::new(Expr::Number(a)), Op::Pow, Box::new(Expr::Number(b))),
                ),
                Op::Pow,
                Box::new(Expr::Number(c)),
            ),
        ),
{
    let first = Expr::Number(a);
    let second = Expr::Number(b);
    let third = Expr::Number(c);
    let inner = Expr::BinOp(Box::new(first), Op::Pow, Box::new(second));
    let tree = Expr::BinOp(Box::new(inner), Op::Pow, Box::new(third));
    assert(kind_at(tokens, 0) == Some(Kind::Type(a)));
    assert(kind_at(tokens, 1) == Some(Kind::Op(Op::Pow)));
    assert(kind_at(tokens, 2) == Some(Kind::Type(b)));
    assert(kind_at(tokens, 3) == Some(Kind::Op(Op::Pow)));
    assert(kind_at(tokens, 4) == Some(Kind::Type(c)));
    assert(kind_at(tokens, 5) == Some(Kind::EOF));
    assert(spec_atom(tokens, 0) == Parsed::Tree(first, 1));
    assert(spec_atom(tokens, 2) == Parsed::Tree(second, 3));
    assert(spec_atom(tokens, 4) == Parsed::Tree(third, 5));
    assert(spec_exponent(tokens, 2) == Parsed::Tree(second, 3));
    assert(spec_exponent(tokens, 4) == Parsed::Tree(third, 5));
    assert(right_operand(tokens, 2, Level::Power) == Parsed::Tree(second, 3));
    assert(right_operand(tokens, 4, Level::Power) == Parsed::Tree(third, 5));
    assert(tail(tokens, 5, Level::Power, tree) == Parsed::Tree(tree, 5));
    assert(tail(tokens, 3, Level::Power, inner) == Parsed::Tree(tree, 5));
    assert(tail(tokens, 1, Level::Power, first) == Parsed::Tree(tree, 5));
    assert(chain(tokens, 0, Level::Power) == Parsed::Tree(tree, 5));
    chain_alone(tokens, 0, a, Level::Power, tree, 5);
}

/// A parenthesis that is not closed is an error at the token where the
/// closing one was due: where the expression behind `(` is not followed by
/// `)`, the parse fails there with [`Expected::Rpr`]. Where the tokens have
/// run out, the error names the last token.
pub proof fn unclosed_parenthesis(tokens: Seq<Lexeme>, tree: Expr, end: int)
    requires
        kind_at(tokens, 0) == Some(Kind::LPR),
        spec_expr(tokens, 1) == Parsed::Tree(tree, end),
        kind_at(tokens, end) != Some(Kind::RPR),
    ensures
        spec_parse(tokens, 0) == Err::<Expr, (Expected, int)>(
            (Expected::Rpr, blamed(tokens, end)),
        ),
{
    let failure = Parsed::Failure(Expected::Rpr, blamed(tokens, end));
    assert(spec_atom(tokens, 0) == failure);
    assert(operand(tokens, 0, Level::Power) == failure);
    assert(chain(tokens, 0, Level::Power) == failure);
    assert(spec_factor(tokens, 0) == failure);
    assert(operand(tokens, 0, Level::Product) == failure);
    assert(chain(tokens, 0, Level::Product) == failure);
    assert(operand(tokens, 0, Level::Sum) == failure);
    assert(chain(tokens, 0, Level::Sum) == failure);
    assert(operand(tokens, 0, Level::Comparison) == failure);
    assert(chain(tokens, 0, Level::Comparison) == failure);
    assert(spec_logic_expr(tokens, 0) == failure);
    assert(operand(tokens, 0, Level::Logic) == failure);
    assert(chain(tokens, 0, Level::Logic) == failure);
    assert(spec_expr(tokens, 0) == failure);
}

/// Logical not flips a boolean and refuses every other value: where the
/// operand evaluates to a value, the result is the flipped boolean or the
/// error that names the value.
pub proof fn not_needs_a_boolean(inner: Expr, scopes: Seq<Scope>, facts: Facts)
    requires
        eval(inner, scopes, facts).result is Ok,
    ensures
        eval(Expr::NotOp(Box::new(inner)), scopes, facts).result == (match eval(
            inner,
            scopes,
            facts,
        ).result->Ok_0 {
            Type::Bool(b) => Ok::<Type, RuntimeErrorView>(Type::Bool(!b)),
            other => Err(RuntimeErrorView::NotABool(other)),
        }),
        eval(Expr::NotOp(Box::new(inner)), scopes, facts).scopes == eval(
            inner,
            scopes,
            facts,
        ).scopes,
{
}

} // verus!
