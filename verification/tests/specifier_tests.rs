use lang::ast::{Declarator, DirectDeclarator, SpecifierQualifier, StructMember, StructOrUnionSpecifier, TypeQualifier, TypeSpecifier};
use lang::ast::TypeSpecifier::{Char, Double, Float, Int, Long, Short, Signed, UnSigned, Void};
use lang::error::SemanticError;
use lang::scope::SemanticContext;
use lang::specifiers::analyze_specifier_qualifiers;
use lang::types::{type_eq, Type};

fn ts(t: TypeSpecifier) -> SpecifierQualifier {
    SpecifierQualifier::TypeSpecifier(t)
}

fn resolve<'a>(sqs: &'a Vec<SpecifierQualifier>, ctx: &SemanticContext) -> Result<Type, SemanticError<'a>> {
    analyze_specifier_qualifiers(sqs, ctx)
}

#[test]
fn long_long_both_spellings() {
    let ctx = SemanticContext::new();
    let a = resolve(&vec![ts(Long), ts(Long)], &ctx).unwrap();
    let b = resolve(&vec![ts(Signed), ts(Long), ts(Long), ts(Int)], &ctx).unwrap();
    assert!(type_eq(&a, &Type::LongLong));
    assert!(type_eq(&b, &Type::LongLong));
    // order among the keywords is immaterial
    let c = resolve(&vec![ts(Long), ts(Int), ts(Long), ts(Signed)], &ctx).unwrap();
    assert!(type_eq(&c, &Type::LongLong));
}

#[test]
fn single_keyword_rows() {
    let ctx = SemanticContext::new();
    assert!(type_eq(&resolve(&vec![ts(Void)], &ctx).unwrap(), &Type::Void));
    assert!(type_eq(&resolve(&vec![ts(Char)], &ctx).unwrap(), &Type::Char));
    assert!(type_eq(&resolve(&vec![ts(Int)], &ctx).unwrap(), &Type::Int));
    assert!(type_eq(&resolve(&vec![ts(Signed)], &ctx).unwrap(), &Type::Int));
    assert!(type_eq(&resolve(&vec![ts(Float)], &ctx).unwrap(), &Type::Float));
    assert!(type_eq(&resolve(&vec![ts(Double)], &ctx).unwrap(), &Type::Double));
    assert!(type_eq(&resolve(&vec![ts(Short)], &ctx).unwrap(), &Type::Short));
    assert!(type_eq(&resolve(&vec![ts(UnSigned)], &ctx).unwrap(), &Type::UnSigned));
}

#[test]
fn combined_rows() {
    let ctx = SemanticContext::new();
    assert!(type_eq(&resolve(&vec![ts(Signed), ts(Char)], &ctx).unwrap(), &Type::SignedChar));
    assert!(type_eq(&resolve(&vec![ts(UnSigned), ts(Char)], &ctx).unwrap(), &Type::UnSignedChar));
    assert!(type_eq(
        &resolve(&vec![ts(UnSigned), ts(Short), ts(Int)], &ctx).unwrap(),
        &Type::UnSignedShort
    ));
    assert!(type_eq(&resolve(&vec![ts(Long), ts(Int)], &ctx).unwrap(), &Type::Long));
    assert!(type_eq(&resolve(&vec![ts(UnSigned), ts(Long)], &ctx).unwrap(), &Type::UnSignedLong));
    assert!(type_eq(
        &resolve(&vec![ts(UnSigned), ts(Long), ts(Long), ts(Int)], &ctx).unwrap(),
        &Type::UnSignedLongLong
    ));
    assert!(type_eq(&resolve(&vec![ts(Double), ts(Long)], &ctx).unwrap(), &Type::LongDouble));
}

#[test]
fn qualifiers_are_ignored_for_typing() {
    let ctx = SemanticContext::new();
    let r = resolve(&vec![
        SpecifierQualifier::TypeQualifier(TypeQualifier::Const),
        ts(Int),
        SpecifierQualifier::TypeQualifier(TypeQualifier::Volatile),
    ], &ctx)
    .unwrap();
    assert!(type_eq(&r, &Type::Int));
}

#[test]
fn illegal_combinations_are_refused() {
    let ctx = SemanticContext::new();
    assert!(matches!(
        resolve(&vec![ts(Int), ts(Int)], &ctx),
        Err(SemanticError::InvalidSpecifierQualifiers(_))
    ));
    assert!(matches!(
        resolve(&vec![ts(Void), ts(Int)], &ctx),
        Err(SemanticError::InvalidSpecifierQualifiers(_))
    ));
    assert!(matches!(
        resolve(&vec![ts(Float), ts(Double)], &ctx),
        Err(SemanticError::InvalidSpecifierQualifiers(_))
    ));
    assert!(matches!(
        resolve(&vec![ts(Signed), ts(UnSigned)], &ctx),
        Err(SemanticError::InvalidSpecifierQualifiers(_))
    ));
    assert!(matches!(resolve(&vec![], &ctx), Err(SemanticError::InvalidSpecifierQualifiers(_))));
}

#[test]
fn struct_specifier_resolves_members() {
    let ctx = SemanticContext::new();
    let sou = StructOrUnionSpecifier {
        is_union: false,
        name: "point".to_string(),
        members: vec![
            StructMember {
                specifier_qualifiers: vec![ts(Int)],
                declarator: Declarator {
                    pointer: None,
                    d_declarator: DirectDeclarator::Ident("x".to_string()),
                },
            },
            StructMember {
                specifier_qualifiers: vec![ts(Double)],
                declarator: Declarator {
                    pointer: None,
                    d_declarator: DirectDeclarator::Ident("y".to_string()),
                },
            },
        ],
    };
    let r = resolve(&vec![ts(TypeSpecifier::StructOrUnionSpecifier(sou))], &ctx).unwrap();
    match r {
        Type::Struct { name, members } => {
            assert_eq!(name, "point");
            assert_eq!(members.len(), 2);
            assert_eq!(members[0].0, "x");
            assert!(type_eq(&members[0].1, &Type::Int));
            assert_eq!(members[1].0, "y");
            assert!(type_eq(&members[1].1, &Type::Double));
        }
        _ => panic!("expected a struct type"),
    }
}
