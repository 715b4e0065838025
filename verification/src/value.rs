//! Equivalence of default values.

use vstd::prelude::*;
use crate::schema::{SchemaError, Value, ValueView};

verus! {

/// What comparing two default values yields: `Ok(true)` where they differ in
/// a way that breaks compatibility, `Ok(false)` where they do not, and an
/// error where one of them is of an unknown kind.
///
/// Two values agree exactly if they are of the same kind and hold the same
/// payload; the payload of a struct, interface or opaque pointer is not part
/// of the model, so two of these agree whenever their kinds do. A struct
/// default may also become an opaque-pointer default.
pub open spec fn value_verdict(base: ValueView, changed: ValueView) -> Result<bool, SchemaError> {
    if let ValueView::Unknown(tag) = base {
        Err(SchemaError::UnknownKind(tag))
    } else if let ValueView::Unknown(tag) = changed {
        Err(SchemaError::UnknownKind(tag))
    } else {
        Ok(!(base == changed || (base is Struct && changed is AnyPointer)))
    }
}

/// Tells whether two byte strings hold the same bytes.
fn same_bytes(a: &Vec<u8>, b: &Vec<u8>) -> (r: bool)
    ensures
        r == (a@ == b@),
{
    if a.len() != b.len() {
        return false;
    }
    let mut i: usize = 0;
    while i < a.len()
        invariant
            a@.len() == b@.len(),
            i <= a@.len(),
            a@.take(i as int) == b@.take(i as int),
        decreases a@.len() - i,
    {
        if a[i] != b[i] {
            return false;
        }
        assert(a@.take(i + 1) == a@.take(i as int).push(a@[i as int]));
        assert(b@.take(i + 1) == b@.take(i as int).push(b@[i as int]));
        i += 1;
    }
    assert(a@.take(i as int) == a@);
    assert(b@.take(i as int) == b@);
    true
}

/// Decides whether replacing the default value `base` by `changed` breaks
/// compatibility.
pub fn is_broken_value(base: &Value, changed: &Value) -> (r: Result<bool, SchemaError>)
    ensures
        r == value_verdict(base@, changed@),
{
    match base {
        Value::Unknown(tag) => Err(SchemaError::UnknownKind(*tag)),
        Value::Void => match changed {
            Value::Unknown(tag) => Err(SchemaError::UnknownKind(*tag)),
            Value::Void => Ok(false),
            _ => Ok(true),
        },
        Value::Bool(base_bool) => match changed {
            Value::Unknown(tag) => Err(SchemaError::UnknownKind(*tag)),
            Value::Bool(changed_bool) => Ok(*base_bool != *changed_bool),
            _ => Ok(true),
        },
        Value::Int8(base_i8) => match changed {
            Value::Unknown(tag) => Err(SchemaError::UnknownKind(*tag)),
            Value::Int8(changed_i8) => Ok(*base_i8 != *changed_i8),
            _ => Ok(true),
        },
        Value::Int16(base_i16) => match changed {
            Value::Unknown(tag) => Err(SchemaError::UnknownKind(*tag)),
            Value::Int16(changed_i16) => Ok(*base_i16 != *changed_i16),
            _ => Ok(true),
        },
        Value::Int32(base_i32) => match changed {
            Value::Unknown(tag) => Err(SchemaError::UnknownKind(*tag)),
            Value::Int32(changed_i32) => Ok(*base_i32 != *changed_i32),
            _ => Ok(true),
        },
        Value::Int64(base_i64) => match changed {
            Value::Unknown(tag) => Err(SchemaError::UnknownKind(*tag)),
            Value::Int64(changed_i64) => Ok(*base_i64 != *changed_i64),
            _ => Ok(true),
        },
        Value::Uint8(base_u8) => match changed {
            Value::Unknown(tag) => Err(SchemaError::UnknownKind(*tag)),
            Value::Uint8(changed_u8) => Ok(*base_u8 != *changed_u8),
            _ => Ok(true),
        },
        Value::Uint16(base_u16) => match changed {
            Value::Unknown(tag) => Err(SchemaError::UnknownKind(*tag)),
            Value::Uint16(changed_u16) => Ok(*base_u16 != *changed_u16),
            _ => Ok(true),
        },
        Value::Uint32(base_u32) => match changed {
            Value::Unknown(tag) => Err(SchemaError::UnknownKind(*tag)),
            Value::Uint32(changed_u32) => Ok(*base_u32 != *changed_u32),
            _ => Ok(true),
        },
        Value::Uint64(base_u64) => match changed {
            Value::Unknown(tag) => Err(SchemaError::UnknownKind(*tag)),
            Value::Uint64(changed_u64) => Ok(*base_u64 != *changed_u64),
            _ => Ok(true),
        },
        Value::Float32(base_bits) => match changed {
            Value::Unknown(tag) => Err(SchemaError::UnknownKind(*tag)),
            Value::Float32(changed_bits) => Ok(*base_bits != *changed_bits),
            _ => Ok(true),
        },
        Value::Float64(base_bits) => match changed {
            Value::Unknown(tag) => Err(SchemaError::UnknownKind(*tag)),
            Value::Float64(changed_bits) => Ok(*base_bits != *changed_bits),
            _ => Ok(true),
        },
        Value::Text(base_text) => match changed {
            Value::Unknown(tag) => Err(SchemaError::UnknownKind(*tag)),
            Value::Text(changed_text) => {
                let same = *base_text == *changed_text;
                Ok(!same)
            },
            _ => Ok(true),
        },
        Value::Data(base_bytes) => match changed {
            Value::Unknown(tag) => Err(SchemaError::UnknownKind(*tag)),
            Value::Data(changed_bytes) => Ok(!same_bytes(base_bytes, changed_bytes)),
            _ => Ok(true),
        },
        Value::List(base_bytes) => match changed {
            Value::Unknown(tag) => Err(SchemaError::UnknownKind(*tag)),
            // Two lists are held to be the same where their encodings are.
            Value::List(changed_bytes) => Ok(!same_bytes(base_bytes, changed_bytes)),
            _ => Ok(true),
        },
        Value::Enum(base_ordinal) => match changed {
            Value::Unknown(tag) => Err(SchemaError::UnknownKind(*tag)),
            Value::Enum(changed_ordinal) => Ok(*base_ordinal != *changed_ordinal),
            _ => Ok(true),
        },
        Value::Struct => match changed {
            Value::Unknown(tag) => Err(SchemaError::UnknownKind(*tag)),
            Value::Struct => Ok(false),
            // The slot became generic, and its default with it.
            Value::AnyPointer => Ok(false),
            _ => Ok(true),
        },
        Value::Interface => match changed {
            Value::Unknown(tag) => Err(SchemaError::UnknownKind(*tag)),
            Value::Interface => Ok(false),
            _ => Ok(true),
        },
        Value::AnyPointer => match changed {
            Value::Unknown(tag) => Err(SchemaError::UnknownKind(*tag)),
            Value::AnyPointer => Ok(false),
            _ => Ok(true),
        },
    }
}

} // verus!
