//! Conversions between database values and Rust values.

use tork_orm::error::ErrorKind;
use tork_orm::value::{BindValue, FromValue, Value};

#[test]
fn i64_rejects_text_value() {
    let result = i64::from_value(Value::Text("not-a-number".to_string()));
    let err = result.expect_err("expected conversion error");
    assert!(matches!(err.kind(), ErrorKind::Conversion));
}

#[test]
fn i32_rejects_out_of_range() {
    let result = i32::from_value(Value::Int(i64::MAX));
    let err = result.expect_err("expected range error");
    assert!(matches!(err.kind(), ErrorKind::Conversion));
    assert!(err.message().contains("out of range"));
}

#[test]
fn bool_rejects_text_value() {
    let result = bool::from_value(Value::Text("yes".to_string()));
    assert!(matches!(
        result.expect_err("expected conversion error").kind(),
        ErrorKind::Conversion
    ));
}

#[test]
fn string_rejects_int_value() {
    let result = String::from_value(Value::Int(42));
    assert!(matches!(
        result.expect_err("expected conversion error").kind(),
        ErrorKind::Conversion
    ));
}

#[test]
fn bind_unsigned_lowers_to_int() {
    assert!(matches!(42_u8.to_value(), Value::Int(42)));
    assert!(matches!(42_u16.to_value(), Value::Int(42)));
    assert!(matches!(42_u32.to_value(), Value::Int(42)));
    assert!(matches!(42_u64.to_value(), Value::Int(42)));
    assert!(matches!(42_usize.to_value(), Value::Int(42)));
}

#[test]
fn bind_signed_lowers_to_int() {
    assert!(matches!((-1_i8).to_value(), Value::Int(-1)));
    assert!(matches!((-1_i16).to_value(), Value::Int(-1)));
}

#[test]
fn from_value_unsigned_round_trip() {
    let v: u32 = u32::from_value(Value::Int(42)).unwrap();
    assert_eq!(v, 42);
    let v: u8 = u8::from_value(Value::Int(255)).unwrap();
    assert_eq!(v, 255);
    let v: u64 = u64::from_value(Value::Int(i64::MAX)).unwrap();
    assert_eq!(v, i64::MAX as u64);
}

#[test]
fn from_value_unsigned_rejects_out_of_range() {
    assert!(u8::from_value(Value::Int(-1)).is_err());
    assert!(u32::from_value(Value::Int(i64::MAX)).is_err());
    assert!(i16::from_value(Value::Int(i64::MAX)).is_err());
}

#[test]
fn booleans_integers_text_and_bytes_convert() {
    assert_eq!(i64::from_value(Value::Bool(true)).unwrap(), 1);
    assert!(bool::from_value(Value::Int(7)).unwrap());
    assert!(!bool::from_value(Value::Int(0)).unwrap());
    assert_eq!(String::from_value(Value::Text("hi".into())).unwrap(), "hi");
    assert_eq!(
        i8::from_value(Value::Int(300)).unwrap_err().message(),
        "integer out of range for i8"
    );
    assert_eq!(Vec::<u8>::from_value(Value::Text("hé".into())).unwrap(), "hé".as_bytes().to_vec());
    assert_eq!(Option::<i64>::from_value(Value::Null).unwrap(), None);
    assert_eq!(Option::<i64>::from_value(Value::Int(5)).unwrap(), Some(5));
    assert!(Option::<i64>::from_value(Value::Text("x".into())).is_err());
    assert_eq!(usize::from_value(Value::Int(9)).unwrap(), 9);
    assert!(usize::from_value(Value::Int(-9)).is_err());
}
