use lang::types::{clone_type, type_eq, Type};

fn fn_type(ret: Type, params: Vec<Type>) -> Type {
    Type::Function { return_ty: Box::new(ret), param_tys: params }
}

#[test]
fn structural_equality_looks_inside() {
    let a = fn_type(Type::Int, vec![Type::Char, Type::Pointer(Box::new(Type::Double))]);
    let b = fn_type(Type::Int, vec![Type::Char, Type::Pointer(Box::new(Type::Double))]);
    let c = fn_type(Type::Int, vec![Type::Char, Type::Pointer(Box::new(Type::Float))]);
    assert!(type_eq(&a, &b));
    assert!(!type_eq(&a, &c));
    assert!(!type_eq(&a, &Type::Int));
}

#[test]
fn distinct_widths_never_equal() {
    assert!(!type_eq(&Type::Int, &Type::Long));
    assert!(!type_eq(&Type::Long, &Type::LongLong));
    assert!(!type_eq(&Type::Char, &Type::SignedChar));
    assert!(type_eq(&Type::UnSignedLongLong, &Type::UnSignedLongLong));
}

#[test]
fn struct_equality_compares_members_in_order() {
    let s1 = Type::Struct {
        name: "s".to_string(),
        members: vec![("a".to_string(), Type::Int), ("b".to_string(), Type::Char)],
    };
    let s2 = Type::Struct {
        name: "s".to_string(),
        members: vec![("a".to_string(), Type::Int), ("b".to_string(), Type::Char)],
    };
    let s3 = Type::Struct {
        name: "s".to_string(),
        members: vec![("b".to_string(), Type::Char), ("a".to_string(), Type::Int)],
    };
    assert!(type_eq(&s1, &s2));
    assert!(!type_eq(&s1, &s3));
}

#[test]
fn array_equality_includes_the_count() {
    let a = Type::Array(Box::new(Type::Int), 3);
    let b = Type::Array(Box::new(Type::Int), 3);
    let c = Type::Array(Box::new(Type::Int), 4);
    assert!(type_eq(&a, &b));
    assert!(!type_eq(&a, &c));
}

#[test]
fn clones_are_structurally_equal() {
    let t = Type::TypeDef {
        name: "vecs".to_string(),
        ty: Box::new(fn_type(Type::Void, vec![Type::Array(Box::new(Type::Char), 8)])),
    };
    assert!(type_eq(&clone_type(&t), &t));
    assert!(type_eq(&t.clone(), &t));
}
