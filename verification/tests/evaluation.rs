use kumi::context::Context;
use kumi::error::RuntimeError;
use kumi::float::{FloatFacts, FloatQuery};
use kumi::interpreter::{Failure, Interpreter};
use kumi::lexer::{LexError, Lexer};
use kumi::node::Node;
use kumi::op::Op;
use kumi::parser::{Expected, Parser};
use kumi::symbol_table::SymbolTable;
use kumi::types::Type;
use kumi::variable::Variable;

/// The host's part: what needs float hardware.
fn answer(facts: &mut FloatFacts, query: FloatQuery) {
    match query {
        FloatQuery::Literal(text) => {
            let bits = text.parse::<f64>().ok().map(f64::to_bits);
            facts.learn_literal(text, bits);
        }
        FloatQuery::Binary(op, a, b) => {
            let (x, y) = (f64::from_bits(a), f64::from_bits(b));
            let r = match op {
                Op::Add => x + y,
                Op::Sub => x - y,
                Op::Mult => x * y,
                Op::Devd => x / y,
                Op::Pow => x.powf(y),
                Op::Remain => x % y,
                _ => unreachable!(),
            };
            facts.learn_result(op, a, b, r.to_bits());
        }
        FloatQuery::Text(bits) => facts.learn_text(bits, format!("{}", f64::from_bits(bits))),
    }
}

struct Session {
    interpreter: Interpreter<'static>,
    facts: FloatFacts,
}

impl Session {
    fn new() -> Session {
        let facts = FloatFacts::new();
        Session { interpreter: Interpreter::new("", &facts).unwrap(), facts }
    }

    fn update(&mut self, text: &str) -> Result<(), String> {
        loop {
            match self.interpreter.update(text, &self.facts) {
                Ok(()) => return Ok(()),
                Err(failure) => match failure.error.query() {
                    Some(query) => answer(&mut self.facts, query),
                    None => return Err(failure.message()),
                },
            }
        }
    }

    fn run(&mut self) -> Result<Type, Failure> {
        loop {
            match self.interpreter.run(&self.facts) {
                Err(Failure::Runtime(RuntimeError::AskFloat(op, a, b))) => {
                    answer(&mut self.facts, FloatQuery::Binary(op, a, b))
                }
                other => return other,
            }
        }
    }

    fn report(&mut self, failure: &Failure) -> String {
        loop {
            match self.interpreter.report(failure, &self.facts) {
                Ok(text) => return text,
                Err(query) => answer(&mut self.facts, query),
            }
        }
    }

    fn eval(&mut self, text: &str) -> Result<Type, String> {
        self.update(text)?;
        match self.run() {
            Ok(value) => Ok(value),
            Err(failure) => Err(self.report(&failure)),
        }
    }

    fn value(&mut self, text: &str) -> Type {
        self.eval(text).unwrap()
    }

    fn failure(&mut self, text: &str) -> Failure {
        self.update(text).unwrap();
        self.run().unwrap_err()
    }

    fn show(&mut self, value: Type) -> String {
        loop {
            match value.to_string(&self.facts) {
                Ok(text) => return text,
                Err(query) => answer(&mut self.facts, query),
            }
        }
    }
}

fn value(text: &str) -> Type {
    Session::new().value(text)
}

fn float(x: f64) -> Type {
    Type::Float(x.to_bits())
}

fn runtime(text: &str) -> RuntimeError {
    match Session::new().failure(text) {
        Failure::Runtime(e) => e,
        other => panic!("{:?}", other),
    }
}

#[test]
fn integer_literals_evaluate_to_themselves() {
    for n in [0i128, 1, 7, 10, 42, 1234567890, i128::MAX] {
        assert_eq!(value(&n.to_string()), Type::Int(n));
    }
    for n in [-1i128, -42, -i128::MAX] {
        assert_eq!(value(&n.to_string()), Type::Int(n));
    }
}

#[test]
fn float_literals_evaluate_to_the_float() {
    for text in ["1.0", "0.5", "3.14159", "10.", "123456789.125", "0.1", "1.7976931348623157"] {
        assert_eq!(value(text), float(text.parse::<f64>().unwrap()));
    }
}

#[test]
fn let_then_reference() {
    let mut session = Session::new();
    assert_eq!(session.value("let x = 5"), Type::Unit);
    assert_eq!(session.value("x"), Type::Int(5));
    assert_eq!(session.value("x + 1"), Type::Int(6));
}

#[test]
fn undeclared_name_is_not_found() {
    assert_eq!(runtime("y"), RuntimeError::NotFound("y".to_string()));
    let mut session = Session::new();
    session.value("let x = 5");
    assert_eq!(
        session.failure("x + y"),
        Failure::Runtime(RuntimeError::NotFound("y".to_string()))
    );
}

#[test]
fn redeclaring_replaces_the_value() {
    let mut session = Session::new();
    assert_eq!(session.value("let x = 5"), Type::Unit);
    assert_eq!(session.value("let x = 7"), Type::Unit);
    assert_eq!(session.value("x"), Type::Int(7));
    assert_eq!(session.value("let x = x == 7"), Type::Unit);
    assert_eq!(session.value("x"), Type::Bool(true));
}

#[test]
fn one_plus_one_is_two() {
    assert_eq!(value("1 + 1"), Type::Int(2));
}

#[test]
fn float_plus_int_is_a_mismatch() {
    assert_eq!(runtime("1.0 + 1"), RuntimeError::Mismatch(Op::Add, float(1.0), Type::Int(1)));
    assert_eq!(runtime("1 * 1.0"), RuntimeError::Mismatch(Op::Mult, Type::Int(1), float(1.0)));
    assert_eq!(
        Session::new().eval("1.0 + 1"),
        Err("Traceback:\nline 1, in <program>\ncan't execute add operation on float(1) and int(1), the types must match"
            .to_string())
    );
}

#[test]
fn division_and_remainder_by_zero() {
    assert_eq!(runtime("1 / 0"), RuntimeError::ZeroDivisor(Op::Devd, Type::Int(1), Type::Int(0)));
    assert_eq!(
        runtime("1 % 0"),
        RuntimeError::ZeroDivisor(Op::Remain, Type::Int(1), Type::Int(0))
    );
    assert_eq!(runtime("1 / 0.0"), RuntimeError::ZeroDivisor(Op::Devd, Type::Int(1), float(0.0)));
    assert_eq!(
        runtime("1.5 % 0.0"),
        RuntimeError::ZeroDivisor(Op::Remain, float(1.5), float(0.0))
    );
    assert_eq!(
        runtime("(1 == 1) / 0"),
        RuntimeError::ZeroDivisor(Op::Devd, Type::Bool(true), Type::Int(0))
    );
    assert_eq!(
        Session::new().eval("1 / 0"),
        Err("Traceback:\nline 1, in <program>\ncan't devide int(1) by zero (int(0))".to_string())
    );
}

#[test]
fn not_of_a_bool_and_of_a_number() {
    let mut session = Session::new();
    session.value("let true = 1 == 1");
    session.value("let false = 1 == 2");
    assert_eq!(session.value("true"), Type::Bool(true));
    assert_eq!(session.value("!true"), Type::Bool(false));
    assert_eq!(session.value("!false"), Type::Bool(true));
    assert_eq!(session.value("!!true"), Type::Bool(true));
    assert_eq!(session.value("!(1 == 2)"), Type::Bool(true));
    assert_eq!(session.failure("!1"), Failure::Runtime(RuntimeError::NotABool(Type::Int(1))));
    assert_eq!(
        session.eval("!1"),
        Err("Traceback:\nline 1, in <program>\ncan't execute not on not a bool type int(1)"
            .to_string())
    );
}

#[test]
fn true_is_a_name_like_any_other() {
    assert_eq!(runtime("!true"), RuntimeError::NotFound("true".to_string()));
}

#[test]
fn and_or_of_bools() {
    let mut session = Session::new();
    session.value("let true = 1 == 1");
    session.value("let false = 1 == 2");
    assert_eq!(session.value("true && false"), Type::Bool(false));
    assert_eq!(session.value("true && true"), Type::Bool(true));
    assert_eq!(session.value("false || true"), Type::Bool(true));
    assert_eq!(session.value("false || false"), Type::Bool(false));
    assert_eq!(session.value("1 == 1 && 2 != 3"), Type::Bool(true));
    assert_eq!(
        session.failure("1 && true"),
        Failure::Runtime(RuntimeError::Mismatch(Op::And, Type::Int(1), Type::Bool(true)))
    );
    assert_eq!(
        session.failure("true || 1"),
        Failure::Runtime(RuntimeError::Mismatch(Op::Or, Type::Bool(true), Type::Int(1)))
    );
}

#[test]
fn power_chain_is_evaluated_from_the_left() {
    assert_eq!(value("2 ^ 3 ^ 2"), Type::Int(64));
    assert_eq!(value("2 ^ (3 ^ 2)"), Type::Int(512));
    assert_eq!(value("2 ^ 2 ^ 2 ^ 2"), Type::Int(256));
    assert_eq!(value("-2 ^ 2"), Type::Int(-4));
    assert_eq!(value("1 ^ -0 ^ 2"), Type::Int(1));
}

#[test]
fn arithmetic_on_ints() {
    assert_eq!(value("1 + 2 * 3"), Type::Int(7));
    assert_eq!(value("(1 + 2) * 3"), Type::Int(9));
    assert_eq!(value("10 - 4 - 3"), Type::Int(3));
    assert_eq!(value("7 / 2"), Type::Int(3));
    assert_eq!(value("-7 / 2"), Type::Int(-3));
    assert_eq!(value("7 % 3"), Type::Int(1));
    assert_eq!(value("-7 % 3"), Type::Int(-1));
    assert_eq!(value("-2 ^ 2"), Type::Int(-4));
    assert_eq!(value("--5"), Type::Int(5));
    assert_eq!(value("2 * -3"), Type::Int(-6));
}

#[test]
fn arithmetic_on_floats() {
    assert_eq!(value("1.5 + 2.25"), float(3.75));
    assert_eq!(value("0.1 + 0.2"), float(0.1 + 0.2));
    assert_eq!(value("1.5 - 2.25"), float(-0.75));
    assert_eq!(value("1.5 * 2.0"), float(3.0));
    assert_eq!(value("1.0 / 3.0"), float(1.0 / 3.0));
    assert_eq!(value("7.5 % 2.0"), float(1.5));
    assert_eq!(value("2.0 ^ 0.5"), float(2.0f64.powf(0.5)));
    assert_eq!(value("-1.5"), float(-1.5));
    assert_eq!(value("1.5 + 2.5 * 2.0 - 0.5"), float(6.0));
    assert_eq!(value("0.1 + 0.2 == 0.3"), Type::Bool(false));
    assert_eq!(value("0.5 + 0.25 == 0.75"), Type::Bool(true));
    assert_eq!(value("0.0 == -0.0"), Type::Bool(true));
    assert_eq!(value("1.5 != 1.5"), Type::Bool(false));
}

#[test]
fn equality_is_for_two_numbers_of_one_type() {
    assert_eq!(value("1 == 1"), Type::Bool(true));
    assert_eq!(value("1 != 1"), Type::Bool(false));
    assert_eq!(value("1 != 2"), Type::Bool(true));
    assert_eq!(runtime("1 == 1.0"), RuntimeError::Mismatch(Op::Eq, Type::Int(1), float(1.0)));
    assert_eq!(
        runtime("(1 == 1) == (1 == 1)"),
        RuntimeError::Mismatch(Op::Eq, Type::Bool(true), Type::Bool(true))
    );
    assert_eq!(
        runtime("(1 == 1) != (1 == 1)"),
        RuntimeError::Mismatch(Op::Eq, Type::Bool(true), Type::Bool(true))
    );
}

#[test]
fn ordering_is_unsupported() {
    assert_eq!(runtime("1 < 2"), RuntimeError::Unsupported(Op::LT, Type::Int(1), Type::Int(2)));
    assert_eq!(runtime("1 <= 2"), RuntimeError::Unsupported(Op::LTE, Type::Int(1), Type::Int(2)));
    assert_eq!(runtime("1 > 2"), RuntimeError::Unsupported(Op::GT, Type::Int(1), Type::Int(2)));
    assert_eq!(runtime("1 >= 2"), RuntimeError::Unsupported(Op::GTE, Type::Int(1), Type::Int(2)));
    assert_eq!(
        Session::new().eval("1 < 2"),
        Err("Traceback:\nline 1, in <program>\ncan't execute < on int(1) and int(2)".to_string())
    );
}

#[test]
fn overflow_is_an_error() {
    let max = "170141183460469231731687303715884105727";
    assert_eq!(
        runtime(&format!("{} + 1", max)),
        RuntimeError::Overflow(Op::Add, Type::Int(i128::MAX), Type::Int(1))
    );
    assert_eq!(
        runtime(&format!("-(-{} - 1)", max)),
        RuntimeError::Overflow(Op::Sub, Type::Int(0), Type::Int(i128::MIN))
    );
    assert_eq!(runtime("2 ^ 200"), RuntimeError::Overflow(Op::Pow, Type::Int(2), Type::Int(200)));
    assert_eq!(runtime("2 ^ -1"), RuntimeError::BadExponent(Type::Int(2), Type::Int(-1)));
}

#[test]
fn negation_of_no_value_fails() {
    assert_eq!(runtime("-(let x = 1)"), RuntimeError::CantInvert(Type::Unit));
    assert_eq!(runtime("!(let x = 1)"), RuntimeError::NotABool(Type::Unit));
}

#[test]
fn a_declaration_gives_no_value() {
    assert_eq!(value("let x = 5"), Type::Unit);
    assert_eq!(
        runtime("(let x = 5) + 1"),
        RuntimeError::Mismatch(Op::Add, Type::Unit, Type::Int(1))
    );
}

#[test]
fn the_left_operand_is_evaluated_first() {
    let mut session = Session::new();
    session.value("let x = 1");
    assert_eq!(
        session.failure("x + (let x = 2)"),
        Failure::Runtime(RuntimeError::Mismatch(Op::Add, Type::Int(1), Type::Unit))
    );
    assert_eq!(session.value("x"), Type::Int(2));
    assert_eq!(
        session.failure("(let x = 3) + x"),
        Failure::Runtime(RuntimeError::Mismatch(Op::Add, Type::Unit, Type::Int(3)))
    );
}

#[test]
fn what_was_declared_before_an_error_stays() {
    let mut session = Session::new();
    assert!(session.eval("(let a = 1) + (1 / 0)").is_err());
    assert_eq!(session.value("a"), Type::Int(1));
}

#[test]
fn the_declaration_expression_is_evaluated_once() {
    let mut session = Session::new();
    session.value("let n = 1");
    session.value("let m = (let n = n + 1)");
    assert_eq!(session.value("n"), Type::Int(2));
    assert_eq!(session.value("m"), Type::Unit);
}

#[test]
fn a_run_that_waits_for_a_float_changes_nothing() {
    let mut facts = FloatFacts::new();
    facts.learn_literal("1.5".to_string(), Some(1.5f64.to_bits()));
    let mut interpreter = Interpreter::new("(let x = 1.5) == (x + x)", &facts).unwrap();
    let asked = interpreter.run(&facts);
    assert_eq!(
        asked,
        Err(Failure::Runtime(RuntimeError::AskFloat(Op::Add, 1.5f64.to_bits(), 1.5f64.to_bits())))
    );
    let before = Interpreter::new("x", &facts).unwrap().run(&facts);
    assert_eq!(before, Err(Failure::Runtime(RuntimeError::NotFound("x".to_string()))));
    interpreter.update("x", &facts).unwrap();
    assert_eq!(
        interpreter.run(&facts),
        Err(Failure::Runtime(RuntimeError::NotFound("x".to_string())))
    );
}

#[test]
fn the_same_tree_in_two_fresh_contexts() {
    let facts = FloatFacts::new();
    let tokens = Lexer::new("(let x = 2 ^ 5) == (x - 1) / 0").tokenize(&facts).unwrap();
    let node = Parser::new(&tokens).parse().unwrap();
    let mut first = Context::new("<program>", None, 1);
    let mut second = Context::new("<program>", None, 1);
    let a = node.get_value(&mut first, &facts);
    let b = node.get_value(&mut second, &facts);
    assert_eq!(a, b);
    assert_eq!(a, Err(RuntimeError::ZeroDivisor(Op::Devd, Type::Int(31), Type::Int(0))));
    let x = Node::GetVar("x".to_string());
    assert_eq!(x.get_value(&mut first, &facts), Ok(Type::Int(32)));
    assert_eq!(x.get_value(&mut second, &facts), Ok(Type::Int(32)));
    let again = node.get_value(&mut first, &facts);
    assert_eq!(again, a);
}

#[test]
fn a_tree_is_not_changed_by_evaluation() {
    let facts = FloatFacts::new();
    let tokens = Lexer::new("let x = 1 + 2 == 3").tokenize(&facts).unwrap();
    let node = Parser::new(&tokens).parse().unwrap();
    let copy = node.duplicate();
    let mut context = Context::new("<program>", None, 1);
    assert_eq!(node.get_value(&mut context, &facts), Ok(Type::Unit));
    assert_eq!(node, copy);
    assert_eq!(Node::GetVar("x".to_string()).get_value(&mut context, &facts), Ok(Type::Bool(true)));
}

#[test]
fn lexing_errors_reach_the_caller() {
    let mut session = Session::new();
    assert_eq!(
        session.eval("1.2.3"),
        Err("...\n1.2.3\n^^^^^\nLexer error on line - 1, column - 4: can't float can have only 1 dot can't add one more to 1.2\n..."
            .to_string())
    );
    let facts = FloatFacts::new();
    let failure = Interpreter::new("1 $", &facts).err().unwrap();
    assert_eq!(failure.error, LexError::InvalidCharacter('$'));
}

#[test]
fn update_keeps_the_old_tokens_after_a_lexing_error() {
    let mut session = Session::new();
    session.update("40 + 2").unwrap();
    assert!(session.update("40 + #").is_err());
    assert_eq!(session.run(), Ok(Type::Int(42)));
}

#[test]
fn update_takes_the_new_text_also_after_a_lexing_error() {
    let mut session = Session::new();
    session.update("1 2").unwrap();
    assert!(session.update("(3 + #").is_err());
    let failure = session.run().unwrap_err();
    match &failure {
        Failure::Syntax(e) => assert_eq!(*e.get_token().get_start(), 2),
        other => panic!("{:?}", other),
    }
    assert_eq!(
        session.report(&failure),
        "...\n(3 + #\n^^^^^^\nParser error on \" \", token - int(2): expected '+', '-', '/', '*', '^' or '%'\n..."
    );
}

#[test]
fn parse_errors_reach_the_caller() {
    let mut session = Session::new();
    let failure = session.failure("(1 + 2");
    match &failure {
        Failure::Syntax(e) => assert_eq!(e.get_err(), Expected::Rpr),
        other => panic!("{:?}", other),
    }
    assert_eq!(
        session.report(&failure),
        "...\n(1 + 2\n^^^^^^\nParser error on \"\", token - EOF: expected ')'\n..."
    );
    assert_eq!(
        session.eval(""),
        Err("...\n\n\nParser error on \"\", token - EOF: expected int or float\n...".to_string())
    );
}

#[test]
fn values_are_shown_with_their_type() {
    let mut session = Session::new();
    let shown: Vec<String> = ["1 + 1", "1.5 + 1.0", "1 == 1", "let x = 1", "1.0 / 3.0", "10.0 ^ 30.0"]
        .iter()
        .map(|text| {
            let value = session.value(text);
            session.show(value)
        })
        .collect();
    assert_eq!(
        shown,
        vec!["int(2)", "float(2.5)", "bool(true)", "()", "float(0.3333333333333333)",
            "float(1000000000000000000000000000000)"]
    );
}

#[test]
fn traceback_lists_the_contexts_from_the_inside_out() {
    let program = Context::new("<program>", None, 1);
    assert_eq!(program.generate_traceback(), "line 1, in <program>\n");
    let outer = Context::new("outer", Some(&program), 12);
    let inner = Context::new("inner", Some(&outer), 345);
    assert_eq!(
        inner.generate_traceback(),
        "line 345, in inner\nline 12, in outer\nline 1, in <program>\n"
    );
    assert_eq!(outer.generate_traceback(), "line 12, in outer\nline 1, in <program>\n");
    assert_eq!(inner.step().unwrap().generate_traceback(), outer.generate_traceback());
    assert!(Context::new("alone", None, 0).step().is_none());
}

#[test]
fn an_inner_context_sees_and_shadows_the_outer_names() {
    let facts = FloatFacts::new();
    let mut program = Context::new("<program>", None, 1);
    program.get_symbol_table_mut().declare(Variable::of("x", Type::Int(1)));
    program.get_symbol_table_mut().declare(Variable::of("y", Type::Int(2)));
    let mut inner = Context::new("inner", Some(&program), 2);
    let x = Node::GetVar("x".to_string());
    let y = Node::GetVar("y".to_string());
    assert_eq!(x.get_value(&mut inner, &facts), Ok(Type::Int(1)));
    let shadow = Node::DeclareVar("x".to_string(), Box::new(Node::Number(Type::Int(10))));
    assert_eq!(shadow.get_value(&mut inner, &facts), Ok(Type::Unit));
    assert_eq!(x.get_value(&mut inner, &facts), Ok(Type::Int(10)));
    assert_eq!(y.get_value(&mut inner, &facts), Ok(Type::Int(2)));
    assert_eq!(inner.get_symbol_table_mut().remove("x"), Ok(()));
    assert_eq!(x.get_value(&mut inner, &facts), Ok(Type::Int(1)));
    assert_eq!(
        inner.get_symbol_table_mut().remove("x"),
        Err(RuntimeError::NotFound("x".to_string()))
    );
    assert_eq!(
        inner.get_symbol_table_mut().remove("y"),
        Err(RuntimeError::NotFound("y".to_string()))
    );
    assert_eq!(x.get_value(&mut program, &facts), Ok(Type::Int(1)));
}

#[test]
fn symbol_table_declare_lookup_remove() {
    let mut root = SymbolTable::default();
    assert_eq!(root.get_from_tree("x"), Err(RuntimeError::NotFound("x".to_string())));
    root.declare(Variable::of("x", Type::Int(1)));
    root.declare(Variable::of("y", Type::Bool(true)));
    assert_eq!(root.get_from_tree("x"), Ok(&Variable::of("x", Type::Int(1))));
    root.declare(Variable::of("x", Type::Int(2)));
    assert_eq!(root.get_from_tree("x").map(|v| *v.get_value()), Ok(Type::Int(2)));
    assert_eq!(root.get_from_tree("y").map(|v| *v.get_value()), Ok(Type::Bool(true)));
    {
        let mut child = SymbolTable::new(&root);
        assert_eq!(child.get_from_tree("x").map(|v| *v.get_value()), Ok(Type::Int(2)));
        child.declare(Variable::of("x", Type::Int(3)));
        assert_eq!(child.get_from_tree("x").map(|v| *v.get_value()), Ok(Type::Int(3)));
        let copy = child.duplicate();
        assert_eq!(child.remove("x"), Ok(()));
        assert_eq!(child.get_from_tree("x").map(|v| *v.get_value()), Ok(Type::Int(2)));
        assert_eq!(copy.get_from_tree("x").map(|v| *v.get_value()), Ok(Type::Int(3)));
        assert_eq!(child.remove("x"), Err(RuntimeError::NotFound("x".to_string())));
    }
    assert_eq!(root.remove("x"), Ok(()));
    assert_eq!(root.remove("x"), Err(RuntimeError::NotFound("x".to_string())));
    assert_eq!(root.get_from_tree("x"), Err(RuntimeError::NotFound("x".to_string())));
    assert_eq!(root.get_from_tree("y").map(|v| *v.get_value()), Ok(Type::Bool(true)));
}

#[test]
fn variable_new_evaluates_its_expression() {
    let facts = FloatFacts::new();
    let mut context = Context::new("<program>", None, 1);
    let sum = Node::BinOp(
        Box::new(Node::Number(Type::Int(2))),
        Op::Add,
        Box::new(Node::Number(Type::Int(3))),
    );
    let variable = Variable::new("five", &sum, &mut context, &facts).unwrap();
    assert_eq!(variable.get_name(), "five");
    assert_eq!(*variable.get_value(), Type::Int(5));
    assert_eq!(variable, Variable::of("five", Type::Int(5)));
    assert!(variable.is_named(&"five".to_string()));
    assert_eq!(variable.duplicate(), variable);
    let missing = Node::GetVar("five".to_string());
    assert_eq!(
        Variable::new("x", &missing, &mut context, &facts),
        Err(RuntimeError::NotFound("five".to_string()))
    );
}

#[test]
fn a_copy_of_a_context_is_independent() {
    let facts = FloatFacts::new();
    let mut context = Context::new("<program>", None, 1);
    context.get_symbol_table_mut().declare(Variable::of("x", Type::Int(1)));
    let mut copy = context.duplicate();
    copy.get_symbol_table_mut().declare(Variable::of("x", Type::Int(2)));
    let x = Node::GetVar("x".to_string());
    assert_eq!(x.get_value(&mut context, &facts), Ok(Type::Int(1)));
    assert_eq!(x.get_value(&mut copy, &facts), Ok(Type::Int(2)));
    assert_eq!(copy.generate_traceback(), context.generate_traceback());
    assert_eq!(
        context.get_symbol_table().get_from_tree("x").map(|v| *v.get_value()),
        Ok(Type::Int(1))
    );
}

#[test]
fn facts_that_come_later_change_nothing_that_was_settled() {
    let mut facts = FloatFacts::new();
    facts.learn_literal("1.5".to_string(), Some(1.5f64.to_bits()));
    facts.learn_result(Op::Add, 1.5f64.to_bits(), 1.5f64.to_bits(), 3.0f64.to_bits());
    let text = "1.5 + 1.5";
    let tokens = Lexer::new(text).tokenize(&facts).unwrap();
    let node = Parser::new(&tokens).parse().unwrap();
    let mut context = Context::new("<program>", None, 1);
    let settled = node.get_value(&mut context, &facts);
    assert_eq!(settled, Ok(float(3.0)));
    facts.learn_literal("1.5".to_string(), Some(9.0f64.to_bits()));
    facts.learn_literal("2.5".to_string(), Some(2.5f64.to_bits()));
    facts.learn_result(Op::Add, 1.5f64.to_bits(), 1.5f64.to_bits(), 7.0f64.to_bits());
    facts.learn_result(Op::Sub, 1.5f64.to_bits(), 1.5f64.to_bits(), 0.0f64.to_bits());
    assert_eq!(Lexer::new(text).tokenize(&facts).unwrap(), tokens);
    assert_eq!(node.get_value(&mut context, &facts), settled);
}

#[test]
fn a_request_is_for_what_the_facts_lack() {
    let mut session = Session::new();
    session.update("1.5 * 2.0 + 1.5 * 2.0").unwrap();
    let mut asked = Vec::new();
    let value = loop {
        match session.interpreter.run(&session.facts) {
            Err(Failure::Runtime(error)) => {
                let query = error.query().unwrap();
                assert!(!asked.contains(&query));
                asked.push(query.clone());
                answer(&mut session.facts, query);
            }
            other => break other,
        }
    };
    assert_eq!(value, Ok(float(6.0)));
    assert_eq!(
        asked,
        vec![
            FloatQuery::Binary(Op::Mult, 1.5f64.to_bits(), 2.0f64.to_bits()),
            FloatQuery::Binary(Op::Add, 3.0f64.to_bits(), 3.0f64.to_bits()),
        ]
    );
}
