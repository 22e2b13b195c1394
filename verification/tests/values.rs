use kumi::error::RuntimeError;
use kumi::float::{FloatFacts, FloatQuery};
use kumi::op::Op;
use kumi::types::{int_power, Type};

fn bits(x: f64) -> u64 {
    x.to_bits()
}

#[test]
fn add_two_ints() {
    let facts = FloatFacts::new();
    assert_eq!(Type::Int(1).add(&Type::Int(1), &facts), Ok(Type::Int(2)));
    assert_eq!(Type::Int(-7).add(&Type::Int(3), &facts), Ok(Type::Int(-4)));
}

#[test]
fn add_int_and_float_is_a_mismatch() {
    let facts = FloatFacts::new();
    let one = Type::Float(bits(1.0));
    assert_eq!(
        one.add(&Type::Int(1), &facts),
        Err(RuntimeError::Mismatch(Op::Add, one, Type::Int(1)))
    );
    assert_eq!(
        Type::Int(1).add(&one, &facts),
        Err(RuntimeError::Mismatch(Op::Add, Type::Int(1), one))
    );
}

#[test]
fn add_reports_overflow() {
    let facts = FloatFacts::new();
    assert_eq!(
        Type::Int(i128::MAX).add(&Type::Int(1), &facts),
        Err(RuntimeError::Overflow(Op::Add, Type::Int(i128::MAX), Type::Int(1)))
    );
    assert_eq!(Type::Int(i128::MAX).add(&Type::Int(0), &facts), Ok(Type::Int(i128::MAX)));
}

#[test]
fn sub_and_mult_on_ints() {
    let facts = FloatFacts::new();
    assert_eq!(Type::Int(5).sub(&Type::Int(8), &facts), Ok(Type::Int(-3)));
    assert_eq!(Type::Int(6).mult(&Type::Int(-7), &facts), Ok(Type::Int(-42)));
    assert_eq!(
        Type::Int(i128::MIN).sub(&Type::Int(1), &facts),
        Err(RuntimeError::Overflow(Op::Sub, Type::Int(i128::MIN), Type::Int(1)))
    );
    assert_eq!(
        Type::Int(i128::MAX).mult(&Type::Int(2), &facts),
        Err(RuntimeError::Overflow(Op::Mult, Type::Int(i128::MAX), Type::Int(2)))
    );
}

#[test]
fn division_rounds_toward_zero() {
    let facts = FloatFacts::new();
    assert_eq!(Type::Int(7).devd(&Type::Int(2), &facts), Ok(Type::Int(3)));
    assert_eq!(Type::Int(-7).devd(&Type::Int(2), &facts), Ok(Type::Int(-3)));
    assert_eq!(Type::Int(7).devd(&Type::Int(-2), &facts), Ok(Type::Int(-3)));
    assert_eq!(Type::Int(-7).devd(&Type::Int(-2), &facts), Ok(Type::Int(3)));
    assert_eq!(Type::Int(0).devd(&Type::Int(-2), &facts), Ok(Type::Int(0)));
}

#[test]
fn remainder_has_the_sign_of_the_dividend() {
    let facts = FloatFacts::new();
    assert_eq!(Type::Int(7).remain(&Type::Int(2), &facts), Ok(Type::Int(1)));
    assert_eq!(Type::Int(-7).remain(&Type::Int(2), &facts), Ok(Type::Int(-1)));
    assert_eq!(Type::Int(7).remain(&Type::Int(-2), &facts), Ok(Type::Int(1)));
    assert_eq!(Type::Int(-7).remain(&Type::Int(-2), &facts), Ok(Type::Int(-1)));
    assert_eq!(Type::Int(i128::MIN).remain(&Type::Int(-1), &facts), Ok(Type::Int(0)));
}

#[test]
fn division_by_zero_comes_before_the_types() {
    let facts = FloatFacts::new();
    assert_eq!(
        Type::Int(1).devd(&Type::Int(0), &facts),
        Err(RuntimeError::ZeroDivisor(Op::Devd, Type::Int(1), Type::Int(0)))
    );
    assert_eq!(
        Type::Int(1).remain(&Type::Int(0), &facts),
        Err(RuntimeError::ZeroDivisor(Op::Remain, Type::Int(1), Type::Int(0)))
    );
    let zero = Type::Float(bits(0.0));
    let minus_zero = Type::Float(bits(-0.0));
    assert_eq!(
        Type::Int(1).devd(&zero, &facts),
        Err(RuntimeError::ZeroDivisor(Op::Devd, Type::Int(1), zero))
    );
    assert_eq!(
        Type::Bool(true).remain(&minus_zero, &facts),
        Err(RuntimeError::ZeroDivisor(Op::Remain, Type::Bool(true), minus_zero))
    );
    assert_eq!(
        Type::Unit.devd(&Type::Int(0), &facts),
        Err(RuntimeError::ZeroDivisor(Op::Devd, Type::Unit, Type::Int(0)))
    );
}

#[test]
fn division_of_the_least_int_by_minus_one_overflows() {
    let facts = FloatFacts::new();
    assert_eq!(
        Type::Int(i128::MIN).devd(&Type::Int(-1), &facts),
        Err(RuntimeError::Overflow(Op::Devd, Type::Int(i128::MIN), Type::Int(-1)))
    );
}

#[test]
fn power_of_ints() {
    let facts = FloatFacts::new();
    assert_eq!(Type::Int(2).pow(&Type::Int(10), &facts), Ok(Type::Int(1024)));
    assert_eq!(Type::Int(-2).pow(&Type::Int(3), &facts), Ok(Type::Int(-8)));
    assert_eq!(Type::Int(7).pow(&Type::Int(0), &facts), Ok(Type::Int(1)));
    assert_eq!(Type::Int(0).pow(&Type::Int(0), &facts), Ok(Type::Int(1)));
    assert_eq!(Type::Int(0).pow(&Type::Int(5), &facts), Ok(Type::Int(0)));
    assert_eq!(Type::Int(-2).pow(&Type::Int(127), &facts), Ok(Type::Int(i128::MIN)));
    assert_eq!(
        Type::Int(2).pow(&Type::Int(127), &facts),
        Err(RuntimeError::Overflow(Op::Pow, Type::Int(2), Type::Int(127)))
    );
}

#[test]
fn power_with_a_huge_exponent_ends() {
    assert_eq!(int_power(1, u32::MAX), Some(1));
    assert_eq!(int_power(-1, u32::MAX), Some(-1));
    assert_eq!(int_power(-1, u32::MAX - 1), Some(1));
    assert_eq!(int_power(0, u32::MAX), Some(0));
    assert_eq!(int_power(3, u32::MAX), None);
}

#[test]
fn power_refuses_exponents_out_of_range() {
    let facts = FloatFacts::new();
    assert_eq!(
        Type::Int(2).pow(&Type::Int(-1), &facts),
        Err(RuntimeError::BadExponent(Type::Int(2), Type::Int(-1)))
    );
    let big = Type::Int(u32::MAX as i128 + 1);
    assert_eq!(Type::Int(1).pow(&big, &facts), Err(RuntimeError::BadExponent(Type::Int(1), big)));
    assert_eq!(Type::Int(1).pow(&Type::Int(u32::MAX as i128), &facts), Ok(Type::Int(1)));
}

#[test]
fn float_arithmetic_asks_for_the_result() {
    let mut facts = FloatFacts::new();
    let a = Type::Float(bits(1.5));
    let b = Type::Float(bits(2.25));
    let asked = a.add(&b, &facts);
    assert_eq!(asked, Err(RuntimeError::AskFloat(Op::Add, bits(1.5), bits(2.25))));
    assert_eq!(
        asked.unwrap_err().query(),
        Some(FloatQuery::Binary(Op::Add, bits(1.5), bits(2.25)))
    );
    facts.learn_result(Op::Add, bits(1.5), bits(2.25), bits(1.5 + 2.25));
    assert_eq!(a.add(&b, &facts), Ok(Type::Float(bits(3.75))));
    assert_eq!(a.sub(&b, &facts), Err(RuntimeError::AskFloat(Op::Sub, bits(1.5), bits(2.25))));
    assert_eq!(b.add(&a, &facts), Err(RuntimeError::AskFloat(Op::Add, bits(2.25), bits(1.5))));
}

#[test]
fn float_operations_take_their_result_from_the_facts() {
    let mut facts = FloatFacts::new();
    let (x, y) = (7.5f64, 2.0f64);
    facts.learn_result(Op::Sub, bits(x), bits(y), bits(x - y));
    facts.learn_result(Op::Mult, bits(x), bits(y), bits(x * y));
    facts.learn_result(Op::Devd, bits(x), bits(y), bits(x / y));
    facts.learn_result(Op::Remain, bits(x), bits(y), bits(x % y));
    facts.learn_result(Op::Pow, bits(x), bits(y), bits(x.powf(y)));
    let (a, b) = (Type::Float(bits(x)), Type::Float(bits(y)));
    assert_eq!(a.sub(&b, &facts), Ok(Type::Float(bits(5.5))));
    assert_eq!(a.mult(&b, &facts), Ok(Type::Float(bits(15.0))));
    assert_eq!(a.devd(&b, &facts), Ok(Type::Float(bits(3.75))));
    assert_eq!(a.remain(&b, &facts), Ok(Type::Float(bits(1.5))));
    assert_eq!(a.pow(&b, &facts), Ok(Type::Float(bits(56.25))));
}

#[test]
fn the_first_fact_stands() {
    let mut facts = FloatFacts::new();
    facts.learn_result(Op::Add, 1, 2, 3);
    facts.learn_result(Op::Add, 1, 2, 4);
    assert_eq!(facts.result(Op::Add, 1, 2), Some(3));
    assert_eq!(facts.result(Op::Add, 2, 1), None);
    assert_eq!(facts.result(Op::Sub, 1, 2), None);
    facts.learn_literal("1.5".to_string(), Some(bits(1.5)));
    facts.learn_literal("1.5".to_string(), None);
    assert_eq!(facts.literal(&"1.5".to_string()), Some(Some(bits(1.5))));
    assert_eq!(facts.literal(&"1.50".to_string()), None);
    facts.learn_text(bits(1.5), "1.5".to_string());
    facts.learn_text(bits(1.5), "other".to_string());
    assert_eq!(facts.text(bits(1.5)), Some("1.5".to_string()));
    assert_eq!(facts.text(bits(2.5)), None);
}

#[test]
fn equality_of_ints_and_floats() {
    assert_eq!(Type::Int(3).eq(&Type::Int(3)), Ok(Type::Bool(true)));
    assert_eq!(Type::Int(3).eq(&Type::Int(4)), Ok(Type::Bool(false)));
    let values = [0.0f64, -0.0, 1.5, -1.5, f64::INFINITY, f64::NEG_INFINITY, f64::NAN, f64::MAX,
        f64::MIN_POSITIVE, 5e-324];
    for x in values {
        for y in values {
            assert_eq!(
                Type::Float(bits(x)).eq(&Type::Float(bits(y))),
                Ok(Type::Bool(x == y))
            );
        }
    }
}

#[test]
fn equality_of_other_types_is_a_mismatch() {
    assert_eq!(
        Type::Bool(true).eq(&Type::Bool(true)),
        Err(RuntimeError::Mismatch(Op::Eq, Type::Bool(true), Type::Bool(true)))
    );
    assert_eq!(
        Type::Int(1).eq(&Type::Float(bits(1.0))),
        Err(RuntimeError::Mismatch(Op::Eq, Type::Int(1), Type::Float(bits(1.0))))
    );
    assert_eq!(
        Type::Unit.eq(&Type::Unit),
        Err(RuntimeError::Mismatch(Op::Eq, Type::Unit, Type::Unit))
    );
}

#[test]
fn and_or_need_two_bools() {
    assert_eq!(Type::Bool(true).and(&Type::Bool(false)), Ok(Type::Bool(false)));
    assert_eq!(Type::Bool(true).and(&Type::Bool(true)), Ok(Type::Bool(true)));
    assert_eq!(Type::Bool(false).or(&Type::Bool(true)), Ok(Type::Bool(true)));
    assert_eq!(Type::Bool(false).or(&Type::Bool(false)), Ok(Type::Bool(false)));
    assert_eq!(
        Type::Int(1).and(&Type::Bool(true)),
        Err(RuntimeError::Mismatch(Op::And, Type::Int(1), Type::Bool(true)))
    );
    assert_eq!(
        Type::Bool(true).or(&Type::Int(1)),
        Err(RuntimeError::Mismatch(Op::Or, Type::Bool(true), Type::Int(1)))
    );
}

#[test]
fn inverted_negates_numbers_and_flips_bools() {
    assert_eq!(Type::Int(5).inverted(), Ok(Type::Int(-5)));
    assert_eq!(Type::Int(-5).inverted(), Ok(Type::Int(5)));
    assert_eq!(Type::Bool(true).inverted(), Ok(Type::Bool(false)));
    assert_eq!(Type::Unit.inverted(), Err(RuntimeError::CantInvert(Type::Unit)));
    assert_eq!(
        Type::Int(i128::MIN).inverted(),
        Err(RuntimeError::Overflow(Op::Sub, Type::Int(0), Type::Int(i128::MIN)))
    );
    for x in [0.0f64, -0.0, 1.5, -2.25, f64::INFINITY, f64::NAN] {
        assert_eq!(Type::Float(bits(x)).inverted(), Ok(Type::Float(bits(-x))));
    }
}

#[test]
fn is_zero_of_each_type() {
    assert!(Type::Int(0).is_zero());
    assert!(!Type::Int(1).is_zero());
    assert!(Type::Float(bits(0.0)).is_zero());
    assert!(Type::Float(bits(-0.0)).is_zero());
    assert!(!Type::Float(bits(5e-324)).is_zero());
    assert!(!Type::Float(bits(f64::NAN)).is_zero());
    assert!(!Type::Bool(false).is_zero());
    assert!(!Type::Unit.is_zero());
}

#[test]
fn values_are_printed_with_their_type() {
    let mut facts = FloatFacts::new();
    assert_eq!(Type::Unit.to_string(&facts), Ok("()".to_string()));
    assert_eq!(Type::Int(0).to_string(&facts), Ok("int(0)".to_string()));
    assert_eq!(Type::Int(42).to_string(&facts), Ok("int(42)".to_string()));
    assert_eq!(Type::Int(-1207).to_string(&facts), Ok("int(-1207)".to_string()));
    assert_eq!(Type::Int(i128::MAX).to_string(&facts), Ok(format!("int({})", i128::MAX)));
    assert_eq!(Type::Int(i128::MIN).to_string(&facts), Ok(format!("int({})", i128::MIN)));
    assert_eq!(Type::Bool(true).to_string(&facts), Ok("bool(true)".to_string()));
    assert_eq!(Type::Bool(false).to_string(&facts), Ok("bool(false)".to_string()));
    assert_eq!(Type::Float(bits(2.5)).to_string(&facts), Err(FloatQuery::Text(bits(2.5))));
    facts.learn_text(bits(2.5), format!("{}", 2.5f64));
    assert_eq!(Type::Float(bits(2.5)).to_string(&facts), Ok("float(2.5)".to_string()));
}

#[test]
fn ensure_calls_the_function_on_a_matching_pair() {
    let sum = Type::Int(2).ensure_int(&Type::Int(3), |a, b| Type::Int(a + b));
    assert_eq!(sum, Some(Type::Int(5)));
    assert_eq!(Type::Int(2).ensure_int(&Type::Bool(true), |a, b| Type::Int(a + b)), None);
    assert_eq!(Type::Bool(true).ensure_int(&Type::Int(2), |a, b| Type::Int(a + b)), None);
    let both = Type::Bool(true).ensure_bool(&Type::Bool(false), |a, b| Type::Bool(a && b));
    assert_eq!(both, Some(Type::Bool(false)));
    assert_eq!(Type::Int(1).ensure_bool(&Type::Bool(false), |a, b| Type::Bool(a && b)), None);
    let larger = Type::Float(bits(1.0)).ensure_float(&Type::Float(bits(2.0)), |a, b| {
        Type::Float(f64::from_bits(a).max(f64::from_bits(b)).to_bits())
    });
    assert_eq!(larger, Some(Type::Float(bits(2.0))));
    assert_eq!(Type::Float(bits(1.0)).ensure_float(&Type::Int(2), |a, _| Type::Float(a)), None);
}

#[test]
fn execute_dispatches_on_the_operator() {
    let facts = FloatFacts::new();
    let (a, b) = (Type::Int(7), Type::Int(2));
    assert_eq!(Op::Add.execute(&a, &b, &facts), Ok(Type::Int(9)));
    assert_eq!(Op::Sub.execute(&a, &b, &facts), Ok(Type::Int(5)));
    assert_eq!(Op::Mult.execute(&a, &b, &facts), Ok(Type::Int(14)));
    assert_eq!(Op::Devd.execute(&a, &b, &facts), Ok(Type::Int(3)));
    assert_eq!(Op::Remain.execute(&a, &b, &facts), Ok(Type::Int(1)));
    assert_eq!(Op::Pow.execute(&a, &b, &facts), Ok(Type::Int(49)));
    assert_eq!(Op::Eq.execute(&a, &b, &facts), Ok(Type::Bool(false)));
    assert_eq!(Op::NE.execute(&a, &b, &facts), Ok(Type::Bool(true)));
    assert_eq!(Op::NE.execute(&a, &a, &facts), Ok(Type::Bool(false)));
    assert_eq!(
        Op::And.execute(&Type::Bool(true), &Type::Bool(false), &facts),
        Ok(Type::Bool(false))
    );
    assert_eq!(Op::Or.execute(&Type::Bool(true), &Type::Bool(false), &facts), Ok(Type::Bool(true)));
    assert_eq!(
        Op::NE.execute(&Type::Bool(true), &Type::Bool(false), &facts),
        Err(RuntimeError::Mismatch(Op::Eq, Type::Bool(true), Type::Bool(false)))
    );
}

#[test]
fn ordering_operators_are_unsupported() {
    let facts = FloatFacts::new();
    for op in [Op::LT, Op::LTE, Op::GT, Op::GTE, Op::Not] {
        assert_eq!(
            op.execute(&Type::Int(1), &Type::Int(2), &facts),
            Err(RuntimeError::Unsupported(op, Type::Int(1), Type::Int(2)))
        );
    }
}

#[test]
fn logical_operators_are_the_comparisons() {
    for op in [Op::Eq, Op::NE, Op::LT, Op::LTE, Op::GT, Op::GTE] {
        assert!(op.logical());
    }
    for op in [Op::Add, Op::Sub, Op::Devd, Op::Mult, Op::Pow, Op::Remain, Op::Not, Op::And, Op::Or]
    {
        assert!(!op.logical());
    }
}

#[test]
fn operators_are_printed_as_written() {
    let all = [
        (Op::Add, "+"), (Op::Sub, "-"), (Op::Devd, "/"), (Op::Mult, "*"), (Op::Pow, "^"),
        (Op::Remain, "%"), (Op::Eq, "=="), (Op::Not, "!"), (Op::NE, "!="), (Op::LT, "<"),
        (Op::LTE, "<="), (Op::GT, ">"), (Op::GTE, ">="), (Op::And, "&&"), (Op::Or, "||"),
    ];
    for (op, text) in all {
        assert_eq!(op.to_string(), text);
    }
}

#[test]
fn messages_of_runtime_errors() {
    let mut facts = FloatFacts::new();
    let message = |e: RuntimeError, facts: &FloatFacts| e.message(facts);
    assert_eq!(
        message(RuntimeError::NotFound("x".to_string()), &facts),
        Ok("there isn't variable with name x".to_string())
    );
    assert_eq!(
        message(RuntimeError::CantInvert(Type::Unit), &facts),
        Ok("can't invert ()".to_string())
    );
    assert_eq!(
        message(RuntimeError::Mismatch(Op::Add, Type::Int(1), Type::Bool(true)), &facts),
        Ok("can't execute add operation on int(1) and bool(true), the types must match"
            .to_string())
    );
    assert_eq!(
        message(RuntimeError::Mismatch(Op::Sub, Type::Int(1), Type::Unit), &facts),
        Ok("can't execute subtract operation on int(1) and (), the types must match".to_string())
    );
    assert_eq!(
        message(RuntimeError::ZeroDivisor(Op::Devd, Type::Int(1), Type::Int(0)), &facts),
        Ok("can't devide int(1) by zero (int(0))".to_string())
    );
    assert_eq!(
        message(RuntimeError::ZeroDivisor(Op::Remain, Type::Int(1), Type::Int(0)), &facts),
        Ok("can't take the remainder of int(1) by zero (int(0))".to_string())
    );
    assert_eq!(
        message(RuntimeError::Unsupported(Op::LTE, Type::Int(1), Type::Int(2)), &facts),
        Ok("can't execute <= on int(1) and int(2)".to_string())
    );
    assert_eq!(
        message(RuntimeError::NotABool(Type::Int(1)), &facts),
        Ok("can't execute not on not a bool type int(1)".to_string())
    );
    assert_eq!(
        message(RuntimeError::Overflow(Op::Mult, Type::Int(1), Type::Int(2)), &facts),
        Ok("can't execute multiply operation on int(1) and int(2), the result is out of range"
            .to_string())
    );
    assert_eq!(
        message(RuntimeError::BadExponent(Type::Int(2), Type::Int(-1)), &facts),
        Ok("can't raise int(2) to the power int(-1), the exponent is out of range".to_string())
    );
    let mixed = RuntimeError::Mismatch(Op::Add, Type::Float(bits(1.0)), Type::Int(1));
    assert_eq!(message(mixed.clone(), &facts), Err(FloatQuery::Text(bits(1.0))));
    facts.learn_text(bits(1.0), format!("{}", 1.0f64));
    assert_eq!(
        message(mixed, &facts),
        Ok("can't execute add operation on float(1) and int(1), the types must match".to_string())
    );
}
