use schema_compat::schema::{SchemaError, Value};
use schema_compat::value::is_broken_value;

fn text(s: &str) -> Value {
    Value::Text(String::from(s))
}

#[test]
fn equal_scalars_are_compatible() {
    assert_eq!(is_broken_value(&Value::Void, &Value::Void), Ok(false));
    assert_eq!(is_broken_value(&Value::Bool(true), &Value::Bool(true)), Ok(false));
    assert_eq!(is_broken_value(&Value::Int8(-3), &Value::Int8(-3)), Ok(false));
    assert_eq!(is_broken_value(&Value::Int16(-300), &Value::Int16(-300)), Ok(false));
    assert_eq!(is_broken_value(&Value::Int32(70_000), &Value::Int32(70_000)), Ok(false));
    assert_eq!(is_broken_value(&Value::Int64(i64::MIN), &Value::Int64(i64::MIN)), Ok(false));
    assert_eq!(is_broken_value(&Value::Uint8(3), &Value::Uint8(3)), Ok(false));
    assert_eq!(is_broken_value(&Value::Uint16(300), &Value::Uint16(300)), Ok(false));
    assert_eq!(is_broken_value(&Value::Uint32(70_000), &Value::Uint32(70_000)), Ok(false));
    assert_eq!(is_broken_value(&Value::Uint64(u64::MAX), &Value::Uint64(u64::MAX)), Ok(false));
    assert_eq!(is_broken_value(&Value::Enum(2), &Value::Enum(2)), Ok(false));
}

#[test]
fn different_scalars_are_broken() {
    assert_eq!(is_broken_value(&Value::Bool(true), &Value::Bool(false)), Ok(true));
    assert_eq!(is_broken_value(&Value::Int8(-3), &Value::Int8(3)), Ok(true));
    assert_eq!(is_broken_value(&Value::Int16(1), &Value::Int16(2)), Ok(true));
    assert_eq!(is_broken_value(&Value::Int32(1), &Value::Int32(2)), Ok(true));
    assert_eq!(is_broken_value(&Value::Int64(1), &Value::Int64(2)), Ok(true));
    assert_eq!(is_broken_value(&Value::Uint8(1), &Value::Uint8(2)), Ok(true));
    assert_eq!(is_broken_value(&Value::Uint16(1), &Value::Uint16(2)), Ok(true));
    assert_eq!(is_broken_value(&Value::Uint32(1), &Value::Uint32(2)), Ok(true));
    assert_eq!(is_broken_value(&Value::Uint64(1), &Value::Uint64(2)), Ok(true));
    assert_eq!(is_broken_value(&Value::Enum(1), &Value::Enum(2)), Ok(true));
}

#[test]
fn a_scalar_of_another_kind_is_broken() {
    assert_eq!(is_broken_value(&Value::Int32(1), &Value::Int64(1)), Ok(true));
    assert_eq!(is_broken_value(&Value::Uint8(0), &Value::Bool(false)), Ok(true));
    assert_eq!(is_broken_value(&Value::Void, &Value::Uint8(0)), Ok(true));
    assert_eq!(is_broken_value(&Value::Uint16(2), &Value::Enum(2)), Ok(true));
    assert_eq!(is_broken_value(&Value::Float32(0), &Value::Uint32(0)), Ok(true));
}

#[test]
fn floats_compare_bit_for_bit() {
    let one = Value::Float32(1.0f32.to_bits());
    assert_eq!(is_broken_value(&one, &Value::Float32(1.0f32.to_bits())), Ok(false));
    assert_eq!(is_broken_value(&one, &Value::Float32(1.5f32.to_bits())), Ok(true));
    let nan = Value::Float64(f64::NAN.to_bits());
    assert_eq!(is_broken_value(&nan, &Value::Float64(f64::NAN.to_bits())), Ok(false));
    let zero = Value::Float64(0.0f64.to_bits());
    let minus_zero = Value::Float64((-0.0f64).to_bits());
    assert_eq!(is_broken_value(&zero, &minus_zero), Ok(true));
    assert_eq!(is_broken_value(&Value::Float32(7), &Value::Float64(7)), Ok(true));
}

#[test]
fn text_compares_by_content() {
    assert_eq!(is_broken_value(&text("abc"), &text("abc")), Ok(false));
    assert_eq!(is_broken_value(&text("abc"), &text("abd")), Ok(true));
    assert_eq!(is_broken_value(&text("abc"), &text("ab")), Ok(true));
    assert_eq!(is_broken_value(&text(""), &text("")), Ok(false));
    assert_eq!(is_broken_value(&text("é"), &text("é")), Ok(false));
    assert_eq!(is_broken_value(&text("abc"), &Value::Data(vec![97, 98, 99])), Ok(true));
}

#[test]
fn bytes_compare_by_content() {
    assert_eq!(is_broken_value(&Value::Data(vec![1, 2, 3]), &Value::Data(vec![1, 2, 3])), Ok(false));
    assert_eq!(is_broken_value(&Value::Data(vec![1, 2, 3]), &Value::Data(vec![1, 2, 4])), Ok(true));
    assert_eq!(is_broken_value(&Value::Data(vec![1, 2, 3]), &Value::Data(vec![1, 2])), Ok(true));
    assert_eq!(is_broken_value(&Value::Data(vec![]), &Value::Data(vec![])), Ok(false));
    assert_eq!(is_broken_value(&Value::Data(vec![0xff, 1]), &Value::Data(vec![0xff, 2])), Ok(true));
    assert_eq!(is_broken_value(&Value::Data(vec![0xff, 1]), &Value::Data(vec![0xff, 1])), Ok(false));
    let mut spacious = Vec::with_capacity(64);
    spacious.extend_from_slice(&[1, 2, 3]);
    assert_eq!(is_broken_value(&Value::Data(vec![1, 2, 3]), &Value::Data(spacious)), Ok(false));
}

#[test]
fn lists_compare_by_their_encoding() {
    assert_eq!(is_broken_value(&Value::List(vec![5, 0, 6, 0]), &Value::List(vec![5, 0, 6, 0])), Ok(false));
    assert_eq!(is_broken_value(&Value::List(vec![5, 0, 6, 0]), &Value::List(vec![5, 0, 7, 0])), Ok(true));
    assert_eq!(is_broken_value(&Value::List(vec![5, 0]), &Value::List(vec![5, 0, 0, 0])), Ok(true));
    assert_eq!(is_broken_value(&Value::List(vec![1]), &Value::Data(vec![1])), Ok(true));
}

#[test]
fn composite_defaults_compare_by_kind_alone() {
    assert_eq!(is_broken_value(&Value::Struct, &Value::Struct), Ok(false));
    assert_eq!(is_broken_value(&Value::Interface, &Value::Interface), Ok(false));
    assert_eq!(is_broken_value(&Value::AnyPointer, &Value::AnyPointer), Ok(false));
    assert_eq!(is_broken_value(&Value::Struct, &Value::Interface), Ok(true));
    assert_eq!(is_broken_value(&Value::Interface, &Value::AnyPointer), Ok(true));
    assert_eq!(is_broken_value(&Value::Interface, &Value::Struct), Ok(true));
}

#[test]
fn a_struct_default_may_become_an_opaque_pointer_default() {
    assert_eq!(is_broken_value(&Value::Struct, &Value::AnyPointer), Ok(false));
    assert_eq!(is_broken_value(&Value::AnyPointer, &Value::Struct), Ok(true));
}

#[test]
fn an_unknown_value_stops_the_comparison() {
    assert_eq!(is_broken_value(&Value::Unknown(30), &Value::Void), Err(SchemaError::UnknownKind(30)));
    assert_eq!(is_broken_value(&Value::Void, &Value::Unknown(31)), Err(SchemaError::UnknownKind(31)));
    assert_eq!(
        is_broken_value(&Value::Unknown(30), &Value::Unknown(31)),
        Err(SchemaError::UnknownKind(30))
    );
    assert_eq!(is_broken_value(&text("a"), &Value::Unknown(32)), Err(SchemaError::UnknownKind(32)));
}
