use tankvm::byte_to_string;
use tankvm::bool_to_string;
use tankvm::value_eq;
use tankvm::Value;
use tankvm::VmError;

#[test]
fn byte_text_exact() {
    assert_eq!(byte_to_string(0), "0");
    assert_eq!(byte_to_string(7), "7");
    assert_eq!(byte_to_string(10), "10");
    assert_eq!(byte_to_string(42), "42");
    assert_eq!(byte_to_string(100), "100");
    assert_eq!(byte_to_string(255), "255");
}

#[test]
fn bool_text_exact() {
    assert_eq!(bool_to_string(true), "true");
    assert_eq!(bool_to_string(false), "false");
}

#[test]
fn value_text_forms() {
    assert_eq!(Value::Str("abc".to_string()).to_string(), "abc");
    assert_eq!(Value::Bool(true).to_string(), "true");
    assert_eq!(Value::Byte(9).to_string(), "9");
    assert_eq!(Value::Ptr(3).to_string(), "");
    assert_eq!(Value::Uint(3).to_string(), "");
}

#[test]
fn structural_equality_is_strict() {
    assert!(!value_eq(&Value::Byte(2), &Value::Uint(2)));
    assert!(!value_eq(&Value::Str("1".to_string()), &Value::Byte(1)));
    assert!(value_eq(
        &Value::Str("a".to_string()),
        &Value::Str("a".to_string())
    ));
    assert!(!value_eq(&Value::Ptr(1), &Value::Uint(1)));
    assert!(value_eq(&Value::Bool(false), &Value::Bool(false)));
}

#[test]
fn get_resolves_transitively() {
    let store = vec![Value::Byte(9), Value::Ptr(0)];
    assert_eq!(Value::Ptr(1).get(&store), Ok(Value::Byte(9)));
    assert_eq!(Value::Ptr(0).get(&store), Ok(Value::Byte(9)));
    assert_eq!(Value::Byte(1).get(&store), Ok(Value::Byte(1)));
}

#[test]
fn get_rejects_dangling_and_cyclic_chains() {
    let store = vec![Value::Byte(9)];
    assert_eq!(Value::Ptr(5).get(&store), Err(VmError::OutOfBounds));
    let cyclic = vec![Value::Ptr(1), Value::Ptr(0)];
    assert_eq!(Value::Ptr(0).get(&cyclic), Err(VmError::PointerCycle));
}

#[test]
fn typed_accessors() {
    assert_eq!(Value::Num(5).as_num(), Ok(5));
    assert_eq!(Value::Byte(5).as_num(), Err(VmError::NotANumber));
    assert_eq!(Value::Ptr(5).as_pointer(), Ok(5));
    assert_eq!(Value::Uint(5).as_pointer(), Ok(5));
    assert_eq!(Value::Num(5).as_pointer(), Err(VmError::NotAnAddress));
    assert_eq!(Value::Uint(5).as_uint(), Ok(5));
    assert_eq!(Value::Ptr(5).as_uint(), Err(VmError::BadJumpTarget));
}
