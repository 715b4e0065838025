//! The compatibility matrix of slot types.

use vstd::prelude::*;
use crate::schema::{AnyPointerKind, SchemaError, Type};

verus! {

/// What comparing two slot types yields: `Ok(true)` where the change breaks
/// the wire format, `Ok(false)` where it does not, and an error where a tag
/// that the comparison has to read is unknown.
///
/// Two lists compare as their element types do. A struct may become a generic
/// parameter, and nothing else. Two opaque pointers always agree. Every other
/// pair agrees exactly if the two types are the same.
pub open spec fn type_verdict(base: Type, changed: Type) -> Result<bool, SchemaError>
    decreases base,
{
    match (base, changed) {
        (Type::Unknown(tag), _) => Err(SchemaError::UnknownKind(tag)),
        (_, Type::Unknown(tag)) => Err(SchemaError::UnknownKind(tag)),
        (Type::List(b), Type::List(c)) => type_verdict(*b, *c),
        (Type::Struct(_), Type::AnyPointer(kind)) => match kind {
            AnyPointerKind::Unknown(tag) => Err(SchemaError::UnknownKind(tag)),
            AnyPointerKind::Parameter => Ok(false),
            _ => Ok(true),
        },
        (Type::AnyPointer(_), Type::AnyPointer(_)) => Ok(false),
        _ => Ok(base != changed),
    }
}

/// Decides whether replacing the slot type `base` by `changed` breaks
/// compatibility.
pub fn is_broken_type(base: &Type, changed: &Type) -> (r: Result<bool, SchemaError>)
    ensures
        r == type_verdict(*base, *changed),
    decreases *base,
{
    match base {
        Type::Unknown(tag) => Err(SchemaError::UnknownKind(*tag)),
        Type::Void => match changed {
            Type::Unknown(tag) => Err(SchemaError::UnknownKind(*tag)),
            Type::Void => Ok(false),
            _ => Ok(true),
        },
        Type::Bool => match changed {
            Type::Unknown(tag) => Err(SchemaError::UnknownKind(*tag)),
            Type::Bool => Ok(false),
            _ => Ok(true),
        },
        Type::Int8 => match changed {
            Type::Unknown(tag) => Err(SchemaError::UnknownKind(*tag)),
            Type::Int8 => Ok(false),
            _ => Ok(true),
        },
        Type::Int16 => match changed {
            Type::Unknown(tag) => Err(SchemaError::UnknownKind(*tag)),
            Type::Int16 => Ok(false),
            _ => Ok(true),
        },
        Type::Int32 => match changed {
            Type::Unknown(tag) => Err(SchemaError::UnknownKind(*tag)),
            Type::Int32 => Ok(false),
            _ => Ok(true),
        },
        Type::Int64 => match changed {
            Type::Unknown(tag) => Err(SchemaError::UnknownKind(*tag)),
            Type::Int64 => Ok(false),
            _ => Ok(true),
        },
        Type::Uint8 => match changed {
            Type::Unknown(tag) => Err(SchemaError::UnknownKind(*tag)),
            Type::Uint8 => Ok(false),
            _ => Ok(true),
        },
        Type::Uint16 => match changed {
            Type::Unknown(tag) => Err(SchemaError::UnknownKind(*tag)),
            Type::Uint16 => Ok(false),
            _ => Ok(true),
        },
        Type::Uint32 => match changed {
            Type::Unknown(tag) => Err(SchemaError::UnknownKind(*tag)),
            Type::Uint32 => Ok(false),
            _ => Ok(true),
        },
        Type::Uint64 => match changed {
            Type::Unknown(tag) => Err(SchemaError::UnknownKind(*tag)),
            Type::Uint64 => Ok(false),
            _ => Ok(true),
        },
        Type::Float32 => match changed {
            Type::Unknown(tag) => Err(SchemaError::UnknownKind(*tag)),
            Type::Float32 => Ok(false),
            _ => Ok(true),
        },
        Type::Float64 => match changed {
            Type::Unknown(tag) => Err(SchemaError::UnknownKind(*tag)),
            Type::Float64 => Ok(false),
            _ => Ok(true),
        },
        Type::Text => match changed {
            Type::Unknown(tag) => Err(SchemaError::UnknownKind(*tag)),
            Type::Text => Ok(false),
            _ => Ok(true),
        },
        Type::Data => match changed {
            Type::Unknown(tag) => Err(SchemaError::UnknownKind(*tag)),
            Type::Data => Ok(false),
            _ => Ok(true),
        },
        Type::List(base_element) => match changed {
            Type::Unknown(tag) => Err(SchemaError::UnknownKind(*tag)),
            Type::List(changed_element) => is_broken_type(&**base_element, &**changed_element),
            _ => Ok(true),
        },
        Type::Enum(base_id) => match changed {
            Type::Unknown(tag) => Err(SchemaError::UnknownKind(*tag)),
            Type::Enum(changed_id) => Ok(*base_id != *changed_id),
            _ => Ok(true),
        },
        Type::Struct(base_id) => match changed {
            Type::Unknown(tag) => Err(SchemaError::UnknownKind(*tag)),
            Type::Struct(changed_id) => Ok(*base_id != *changed_id),
            Type::AnyPointer(kind) => match kind {
                AnyPointerKind::Unknown(tag) => Err(SchemaError::UnknownKind(*tag)),
                AnyPointerKind::Unconstrained => Ok(true),
                // The slot became generic: what is written stays a struct pointer.
                AnyPointerKind::Parameter => Ok(false),
                AnyPointerKind::ImplicitMethodParameter => Ok(true),
            },
            _ => Ok(true),
        },
        Type::Interface(base_id) => match changed {
            Type::Unknown(tag) => Err(SchemaError::UnknownKind(*tag)),
            Type::Interface(changed_id) => Ok(*base_id != *changed_id),
            _ => Ok(true),
        },
        Type::AnyPointer(_) => match changed {
            Type::Unknown(tag) => Err(SchemaError::UnknownKind(*tag)),
            // Whether two opaque pointers mean the same is not looked into.
            Type::AnyPointer(_) => Ok(false),
            _ => Ok(true),
        },
    }
}

} // verus!
