use sql_optimizer_labs::value::ArithOp;
use sql_optimizer_labs::Value;

fn s(x: &str) -> Value {
    Value::String(x.to_string())
}

#[test]
fn value_display_formats() {
    assert_eq!(Value::Null.to_string(), "null");
    assert_eq!(Value::Bool(false).to_string(), "false");
    assert_eq!(Value::Bool(true).to_string(), "true");
    assert_eq!(Value::Int(1).to_string(), "1");
    assert_eq!(Value::Int(-42).to_string(), "-42");
    assert_eq!(Value::Int(i32::MIN).to_string(), "-2147483648");
    assert_eq!(s("string").to_string(), "'string'");
    assert_eq!(s("").to_string(), "''");
}

#[test]
fn value_parse_formats() {
    assert_eq!(Value::from_str("null"), Ok(Value::Null));
    assert_eq!(Value::from_str("true"), Ok(Value::Bool(true)));
    assert_eq!(Value::from_str("false"), Ok(Value::Bool(false)));
    assert_eq!(Value::from_str("1"), Ok(Value::Int(1)));
    assert_eq!(Value::from_str("+7"), Ok(Value::Int(7)));
    assert_eq!(Value::from_str("-2147483648"), Ok(Value::Int(i32::MIN)));
    assert_eq!(Value::from_str("'hello'"), Ok(s("hello")));
    assert_eq!(Value::from_str("''"), Ok(s("")));
}

#[test]
fn value_parse_errors_give_back_the_text() {
    assert_eq!(Value::from_str("2147483648"), Err("2147483648".to_string()));
    assert_eq!(Value::from_str("abc"), Err("abc".to_string()));
    assert_eq!(Value::from_str(""), Err("".to_string()));
    assert_eq!(Value::from_str("'open"), Err("'open".to_string()));
    assert_eq!(Value::from_str("True"), Err("True".to_string()));
    assert_eq!(Value::from_str("'"), Err("'".to_string()));
}

#[test]
fn value_display_then_parse_round_trips() {
    for v in [Value::Null, Value::Bool(true), Value::Bool(false), Value::Int(0), Value::Int(-5),
        Value::Int(i32::MAX), s("a b"), s("it's")]
    {
        assert_eq!(Value::from_str(&v.to_string()), Ok(v.clone()));
    }
}

#[test]
fn value_predicates() {
    assert!(Value::Int(0).is_zero());
    assert!(!Value::Int(1).is_zero());
    assert!(!Value::Null.is_zero());
    assert!(!Value::Bool(false).is_zero());
    assert!(Value::Null.is_null());
    assert!(!Value::Int(0).is_null());
    assert_eq!(Value::from(true), Value::Bool(true));
}

#[test]
fn value_three_valued_and() {
    assert_eq!(Value::Bool(true).and(&Value::Bool(true)), Value::Bool(true));
    assert_eq!(Value::Bool(true).and(&Value::Bool(false)), Value::Bool(false));
    assert_eq!(Value::Bool(false).and(&Value::Null), Value::Bool(false));
    assert_eq!(Value::Null.and(&Value::Bool(false)), Value::Bool(false));
    assert_eq!(Value::Null.and(&Value::Bool(true)), Value::Null);
    assert_eq!(Value::Bool(false).and(&Value::Int(3)), Value::Bool(false));
    assert_eq!(Value::Null.and(&Value::Int(3)), Value::Null);
}

#[test]
fn value_three_valued_or() {
    assert_eq!(Value::Bool(false).or(&Value::Bool(false)), Value::Bool(false));
    assert_eq!(Value::Bool(false).or(&Value::Bool(true)), Value::Bool(true));
    assert_eq!(Value::Null.or(&Value::Bool(true)), Value::Bool(true));
    assert_eq!(Value::Bool(true).or(&s("x")), Value::Bool(true));
    assert_eq!(Value::Null.or(&Value::Bool(false)), Value::Null);
    assert_eq!(Value::Int(1).or(&Value::Null), Value::Null);
}

#[test]
fn value_three_valued_xor() {
    assert_eq!(Value::Bool(true).xor(&Value::Bool(false)), Value::Bool(true));
    assert_eq!(Value::Bool(true).xor(&Value::Bool(true)), Value::Bool(false));
    assert_eq!(Value::Null.xor(&Value::Bool(true)), Value::Null);
    assert_eq!(Value::Int(2).xor(&Value::Null), Value::Null);
}

#[test]
fn value_and_or_commute_on_examples() {
    let vals = [Value::Null, Value::Bool(true), Value::Bool(false)];
    for a in &vals {
        for b in &vals {
            assert_eq!(a.and(b), b.and(a));
            assert_eq!(a.or(b), b.or(a));
            assert_eq!(a.xor(b), b.xor(a));
        }
    }
}

#[test]
fn value_not_and_neg() {
    assert_eq!(Value::Bool(true).not(), Value::Bool(false));
    assert_eq!(Value::Null.not(), Value::Null);
    assert_eq!(Value::Int(5).neg(), Value::Int(-5));
    assert_eq!(Value::Int(-5).neg().neg(), Value::Int(-5));
    assert_eq!(Value::Null.neg(), Value::Null);
}

#[test]
fn value_arithmetic() {
    assert_eq!(Value::Int(2).add(&Value::Int(3)), Value::Int(5));
    assert_eq!(Value::Int(2).sub(&Value::Int(3)), Value::Int(-1));
    assert_eq!(Value::Int(-4).mul(&Value::Int(3)), Value::Int(-12));
    assert_eq!(Value::Int(7).div(&Value::Int(2)), Value::Int(3));
    assert_eq!(Value::Int(-7).div(&Value::Int(2)), Value::Int(-3));
    assert_eq!(Value::Int(7).rem(&Value::Int(-2)), Value::Int(1));
    assert_eq!(Value::Int(-7).rem(&Value::Int(2)), Value::Int(-1));
    assert_eq!(Value::Int(1).arith(ArithOp::Add, &Value::Null), Value::Null);
    assert_eq!(Value::Null.div(&Value::Int(0)), Value::Null);
    assert_eq!(s("a").add(&Value::Null), Value::Null);
}
