use schema_compat::schema::{AnyPointerKind, SchemaError, Type};
use schema_compat::type_matrix::is_broken_type;

fn list(element: Type) -> Type {
    Type::List(Box::new(element))
}

fn primitives() -> Vec<Type> {
    vec![
        Type::Void,
        Type::Bool,
        Type::Int8,
        Type::Int16,
        Type::Int32,
        Type::Int64,
        Type::Uint8,
        Type::Uint16,
        Type::Uint32,
        Type::Uint64,
        Type::Float32,
        Type::Float64,
        Type::Text,
        Type::Data,
    ]
}

#[test]
fn narrowing_an_integer_is_broken() {
    assert_eq!(is_broken_type(&Type::Int64, &Type::Int32), Ok(true));
    assert_eq!(is_broken_type(&Type::Int32, &Type::Int64), Ok(true));
    assert_eq!(is_broken_type(&Type::Int32, &Type::Uint32), Ok(true));
    assert_eq!(is_broken_type(&Type::Int64, &Type::Int64), Ok(false));
}

#[test]
fn a_primitive_is_compatible_with_itself_only() {
    let all = primitives();
    for (i, base) in all.iter().enumerate() {
        for (j, changed) in all.iter().enumerate() {
            assert_eq!(is_broken_type(base, changed), Ok(i != j), "{:?} to {:?}", base, changed);
        }
    }
}

#[test]
fn lists_compare_by_their_elements() {
    assert_eq!(is_broken_type(&list(Type::Int64), &list(Type::Int32)), Ok(true));
    assert_eq!(is_broken_type(&list(Type::Int64), &list(Type::Int64)), Ok(false));
    assert_eq!(is_broken_type(&list(list(Type::Text)), &list(list(Type::Text))), Ok(false));
    assert_eq!(is_broken_type(&list(list(Type::Text)), &list(list(Type::Data))), Ok(true));
    assert_eq!(is_broken_type(&list(Type::Int64), &Type::Int64), Ok(true));
    assert_eq!(is_broken_type(&Type::Int64, &list(Type::Int64)), Ok(true));
    assert_eq!(is_broken_type(&list(Type::Struct(1)), &list(Type::Struct(2))), Ok(true));
}

#[test]
fn declared_types_compare_by_identifier() {
    assert_eq!(is_broken_type(&Type::Enum(7), &Type::Enum(7)), Ok(false));
    assert_eq!(is_broken_type(&Type::Enum(7), &Type::Enum(8)), Ok(true));
    assert_eq!(is_broken_type(&Type::Struct(7), &Type::Struct(7)), Ok(false));
    assert_eq!(is_broken_type(&Type::Struct(7), &Type::Struct(8)), Ok(true));
    assert_eq!(is_broken_type(&Type::Interface(7), &Type::Interface(7)), Ok(false));
    assert_eq!(is_broken_type(&Type::Interface(7), &Type::Interface(8)), Ok(true));
    assert_eq!(is_broken_type(&Type::Enum(7), &Type::Struct(7)), Ok(true));
    assert_eq!(is_broken_type(&Type::Struct(7), &Type::Interface(7)), Ok(true));
    assert_eq!(is_broken_type(&Type::Interface(7), &Type::Enum(7)), Ok(true));
    assert_eq!(is_broken_type(&Type::Enum(7), &Type::Uint16), Ok(true));
}

#[test]
fn a_struct_may_become_a_generic_parameter() {
    let concrete = Type::Struct(0xf00);
    assert_eq!(is_broken_type(&concrete, &Type::AnyPointer(AnyPointerKind::Parameter)), Ok(false));
    assert_eq!(is_broken_type(&concrete, &Type::AnyPointer(AnyPointerKind::Unconstrained)), Ok(true));
    assert_eq!(
        is_broken_type(&concrete, &Type::AnyPointer(AnyPointerKind::ImplicitMethodParameter)),
        Ok(true)
    );
    assert_eq!(
        is_broken_type(&concrete, &Type::AnyPointer(AnyPointerKind::Unknown(9))),
        Err(SchemaError::UnknownKind(9))
    );
}

#[test]
fn only_a_struct_may_become_an_opaque_pointer() {
    let generic = Type::AnyPointer(AnyPointerKind::Parameter);
    assert_eq!(is_broken_type(&Type::Interface(3), &generic), Ok(true));
    assert_eq!(is_broken_type(&Type::Enum(3), &generic), Ok(true));
    assert_eq!(is_broken_type(&list(Type::Struct(3)), &generic), Ok(true));
    assert_eq!(is_broken_type(&Type::Text, &generic), Ok(true));
    assert_eq!(is_broken_type(&generic, &Type::Struct(3)), Ok(true));
}

#[test]
fn two_opaque_pointers_always_agree() {
    let kinds = [
        AnyPointerKind::Unconstrained,
        AnyPointerKind::Parameter,
        AnyPointerKind::ImplicitMethodParameter,
        AnyPointerKind::Unknown(4),
    ];
    for base in kinds {
        for changed in kinds {
            assert_eq!(
                is_broken_type(&Type::AnyPointer(base), &Type::AnyPointer(changed)),
                Ok(false)
            );
        }
    }
}

#[test]
fn an_unknown_type_stops_the_comparison() {
    assert_eq!(is_broken_type(&Type::Unknown(40), &Type::Int8), Err(SchemaError::UnknownKind(40)));
    assert_eq!(is_broken_type(&Type::Int8, &Type::Unknown(41)), Err(SchemaError::UnknownKind(41)));
    assert_eq!(
        is_broken_type(&Type::Unknown(40), &Type::Unknown(41)),
        Err(SchemaError::UnknownKind(40))
    );
    assert_eq!(
        is_broken_type(&list(Type::Unknown(42)), &list(Type::Int8)),
        Err(SchemaError::UnknownKind(42))
    );
    assert_eq!(is_broken_type(&list(Type::Unknown(42)), &Type::Int8), Ok(true));
}

#[test]
fn a_cloned_type_is_the_same_type() {
    let deep = list(list(Type::Struct(11)));
    assert_eq!(deep.clone(), deep);
    for primitive in primitives() {
        assert_eq!(primitive.clone(), primitive);
    }
    assert_eq!(Type::AnyPointer(AnyPointerKind::Parameter).clone(), Type::AnyPointer(AnyPointerKind::Parameter));
    assert_eq!(is_broken_type(&deep.clone(), &deep), Ok(false));
}
