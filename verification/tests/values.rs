use letter::coercion::{Difference, Operand, Product, Sum};
use std::ops;

/// A value with its number held as a float, and the arithmetic that follows
/// the rules which the library chooses.
#[derive(Debug, PartialEq)]
enum Value {
    Number(f64),
    String(String),
    Undefined,
    Nan,
}

impl Value {
    fn operand(&self) -> Operand {
        match self {
            Value::Number(_) => Operand::Number,
            Value::String(text) if text.is_empty() => Operand::EmptyText,
            Value::String(text) if text.parse::<f64>().is_ok() => Operand::NumericText,
            Value::String(_) => Operand::OtherText,
            Value::Undefined => Operand::Undefined,
            Value::Nan => Operand::NotANumber,
        }
    }

    fn number(&self) -> f64 {
        match self {
            Value::Number(number) => *number,
            Value::String(text) => text.parse::<f64>().unwrap(),
            _ => unreachable!(),
        }
    }

    fn text(&self) -> String {
        match (self.operand().word(), self) {
            (Some(word), _) => word.to_string(),
            (None, Value::Number(number)) => format!("{}", number),
            (None, Value::String(text)) => text.clone(),
            (None, _) => unreachable!(),
        }
    }
}

impl ops::Add for Value {
    type Output = Value;

    fn add(self, rhs: Self) -> Value {
        match self.operand().add(rhs.operand()) {
            Sum::Numbers => Value::Number(self.number() + rhs.number()),
            Sum::Joined => Value::String(format!("{}{}", self.text(), rhs.text())),
            Sum::NotANumber => Value::Nan,
        }
    }
}

impl ops::Sub for Value {
    type Output = Value;

    fn sub(self, rhs: Self) -> Value {
        match self.operand().sub(rhs.operand()) {
            Difference::Subtracted => Value::Number(self.number() - rhs.number()),
            Difference::Left => Value::Number(self.number()),
            Difference::NegatedRight => Value::Number(-rhs.number()),
            Difference::Zero => Value::Number(0.0),
            Difference::NotANumber => Value::Nan,
        }
    }
}

impl ops::Mul for Value {
    type Output = Value;

    fn mul(self, rhs: Self) -> Value {
        match self.operand().mul(rhs.operand()) {
            Product::Multiplied => Value::Number(self.number() * rhs.number()),
            Product::Zero => Value::Number(0.0),
            Product::NotANumber => Value::Nan,
        }
    }
}

#[test]
fn test_add_values() {
    assert_eq!(Value::Number(1.0) + Value::Number(2.0), Value::Number(3.0));
    assert_eq!(Value::Number(1.0) + Value::String("a".to_string()), Value::String("1a".to_string()));
    assert_eq!(Value::Number(1.0) + Value::Undefined, Value::Nan);
    assert_eq!(Value::Number(1.0) + Value::Nan, Value::Nan);

    assert_eq!(Value::String("a".to_string()) + Value::Number(1.0), Value::String("a1".to_string()));
    assert_eq!(Value::String("a".to_string()) + Value::String("b".to_string()), Value::String("ab".to_string()));
    assert_eq!(Value::String("a".to_string()) + Value::Undefined, Value::String("aundefined".to_string()));
    assert_eq!(Value::String("a".to_string()) + Value::Nan, Value::String("aNaN".to_string()));

    assert_eq!(Value::Undefined + Value::Number(2.0), Value::Nan);
    assert_eq!(Value::Undefined + Value::String("a".to_string()), Value::String("undefineda".to_string()));
    assert_eq!(Value::Undefined + Value::Undefined, Value::Nan);
    assert_eq!(Value::Undefined + Value::Nan, Value::Nan);

    assert_eq!(Value::Nan + Value::Number(2.0), Value::Nan);
    assert_eq!(Value::Nan + Value::String("a".to_string()), Value::String("NaNa".to_string()));
    assert_eq!(Value::Nan + Value::Undefined, Value::Nan);
    assert_eq!(Value::Nan + Value::Nan, Value::Nan);
}

#[test]
fn test_sub_values() {
    assert_eq!(Value::Number(1.0) - Value::Number(2.0), Value::Number(-1.0));
    assert_eq!(Value::Number(1.0) - Value::String("a".to_string()), Value::Nan);
    assert_eq!(Value::Number(1.0) - Value::String("2".to_string()), Value::Number(-1.0));
    assert_eq!(Value::Number(1.0) - Value::String("".to_string()), Value::Number(1.0));
    assert_eq!(Value::Number(1.0) - Value::Undefined, Value::Nan);
    assert_eq!(Value::Number(1.0) - Value::Nan, Value::Nan);

    assert_eq!(Value::String("a".to_string()) - Value::Number(1.0), Value::Nan);
    assert_eq!(Value::String("2".to_string()) - Value::Number(1.0), Value::Number(1.0));
    assert_eq!(Value::String("".to_string()) - Value::Number(2.0), Value::Number(-2.0));
    assert_eq!(Value::String("a".to_string()) - Value::String("2".to_string()), Value::Nan);
    assert_eq!(Value::String("1".to_string()) - Value::String("2".to_string()), Value::Number(-1.0));
    assert_eq!(Value::String("".to_string()) - Value::String("".to_string()), Value::Number(0.0));
    assert_eq!(Value::String("a".to_string()) - Value::Undefined, Value::Nan);
    assert_eq!(Value::String("a".to_string()) - Value::Nan, Value::Nan);

    assert_eq!(Value::Undefined - Value::Number(2.0), Value::Nan);
    assert_eq!(Value::Undefined - Value::String("1".to_string()), Value::Nan);
    assert_eq!(Value::Undefined - Value::Undefined, Value::Nan);
    assert_eq!(Value::Undefined - Value::Nan, Value::Nan);

    assert_eq!(Value::Nan - Value::Number(2.0), Value::Nan);
    assert_eq!(Value::Nan - Value::String("1".to_string()), Value::Nan);
    assert_eq!(Value::Nan - Value::Undefined, Value::Nan);
    assert_eq!(Value::Nan - Value::Nan, Value::Nan);
}

#[test]
fn test_mul_values() {
    assert_eq!(Value::Number(3.0) * Value::Number(2.0), Value::Number(6.0));
    assert_eq!(Value::Number(3.0) * Value::String("a".to_string()), Value::Nan);
    assert_eq!(Value::Number(3.0) * Value::String("-2".to_string()), Value::Number(-6.0));
    assert_eq!(Value::Number(1.0) * Value::String("".to_string()), Value::Number(0.0));
    assert_eq!(Value::Number(1.0) * Value::Undefined, Value::Nan);
    assert_eq!(Value::Number(1.0) * Value::Nan, Value::Nan);

    assert_eq!(Value::String("a".to_string()) * Value::Number(1.0), Value::Nan);
    assert_eq!(Value::String("2".to_string()) * Value::Number(2.0), Value::Number(4.0));
    assert_eq!(Value::String("".to_string()) * Value::Number(2.0), Value::Number(0.0));
    assert_eq!(Value::String("a".to_string()) * Value::String("2".to_string()), Value::Nan);
    assert_eq!(Value::String("-2".to_string()) * Value::String("2".to_string()), Value::Number(-4.0));
    assert_eq!(Value::String("".to_string()) * Value::String("".to_string()), Value::Number(0.0));
    assert_eq!(Value::String("a".to_string()) * Value::Undefined, Value::Nan);
    assert_eq!(Value::String("a".to_string()) * Value::Nan, Value::Nan);

    assert_eq!(Value::Undefined * Value::Number(2.0), Value::Nan);
    assert_eq!(Value::Undefined * Value::String("1".to_string()), Value::Nan);
    assert_eq!(Value::Undefined * Value::Undefined, Value::Nan);
    assert_eq!(Value::Undefined * Value::Nan, Value::Nan);

    assert_eq!(Value::Nan * Value::Number(2.0), Value::Nan);
    assert_eq!(Value::Nan * Value::String("1".to_string()), Value::Nan);
    assert_eq!(Value::Nan * Value::Undefined, Value::Nan);
    assert_eq!(Value::Nan * Value::Nan, Value::Nan);
}

#[test]
fn test_more_values() {
    assert_eq!(Value::String("".to_string()) - Value::String("2".to_string()), Value::Number(-2.0));
    assert_eq!(Value::String("2".to_string()) - Value::String("".to_string()), Value::Number(2.0));
    assert_eq!(Value::String("12".to_string()) - Value::String("3".to_string()), Value::Number(9.0));
    assert_eq!(Value::String("".to_string()) * Value::String("2".to_string()), Value::Number(0.0));
    assert_eq!(Value::String("2".to_string()) * Value::String("3".to_string()), Value::Number(6.0));
    assert_eq!(Value::String("".to_string()) + Value::Undefined, Value::String("undefined".to_string()));
    assert_eq!(Value::Number(1.5) + Value::String("".to_string()), Value::String("1.5".to_string()));
}
