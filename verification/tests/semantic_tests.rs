use lang::ast::{
    CompoundStmt, Declaration, DeclarationSpecifier, Declarator, DirectDeclarator,
    ExternalDeclaration, FunctionDefinition, InitDeclarator, Initializer, Stmt,
    TranslationUnit, TypeSpecifier,
};
use lang::error::{BinOp, SemanticError};
use lang::ast::{BlockItem, EnumSpecifier, LabeledStmt, ParameterDeclaration, StorageClassSpecifier, StructMember, StructOrUnionSpecifier};
use lang::lex::lex;
use lang::scope::SemanticContext;
use lang::parse::{parse_stmt, ParseContext};
use lang::stmts::analyze_program;
use lang::types::{type_eq, Type};

fn body_from(src: &str) -> CompoundStmt {
    let tokens = lex(src).expect("test source must lex");
    let mut ctx = ParseContext::new();
    let (stmt, p) = parse_stmt(&tokens, 0, &mut ctx).expect("test source must parse");
    assert_eq!(p, tokens.len(), "did not consume all of: {}", src);
    match stmt {
        Stmt::Compound(c) => c,
        _ => panic!("test source must be a block"),
    }
}

fn function(name: &str, ret: TypeSpecifier, body: CompoundStmt) -> ExternalDeclaration {
    ExternalDeclaration::FunctionDefinition(FunctionDefinition {
        declaration_specifiers: vec![DeclarationSpecifier::TypeSpecifier(ret)],
        declarator: Declarator {
            pointer: None,
            d_declarator: DirectDeclarator::Function(
                Box::new(DirectDeclarator::Ident(name.to_string())),
                vec![],
            ),
        },
        body,
    })
}

fn main_tu(src: &str) -> TranslationUnit {
    TranslationUnit(vec![function("main", TypeSpecifier::Int, body_from(src))])
}

#[test]
fn scenario_increment_succeeds() {
    // int main() { int a = 0; a++; }
    assert!(analyze_program(&main_tu("{ int a = 0; a++; }")).is_ok());
}

#[test]
fn scenario_break_outside_loop() {
    // int main() { break; }
    assert!(matches!(analyze_program(&main_tu("{ break; }")), Err(SemanticError::IllegalJump(_))));
}

#[test]
fn scenario_goto_missing_label() {
    // int main() { goto missing; }
    match analyze_program(&main_tu("{ goto missing; }")) {
        Err(SemanticError::UndefinedLabel(l)) => assert_eq!(l, "missing"),
        other => panic!("expected an undefined-label error, got {:?}", other),
    }
}

#[test]
fn scenario_case_type_disagrees() {
    // switch on an int with a char case label
    match analyze_program(&main_tu("{ int x = 0; switch (x) case 'a': ; }")) {
        Err(SemanticError::UnexpectedType { expected, actual }) => {
            assert!(type_eq(&expected, &Type::Int));
            assert!(type_eq(&actual, &Type::Char));
        }
        other => panic!("expected an unexpected-type error, got {:?}", other),
    }
}

#[test]
fn scenario_additive_int_double() {
    // an additive expression between an int and a double operand
    match analyze_program(&main_tu("{ double d; 1 + d; }")) {
        Err(SemanticError::InvalidBinaryOperands(op)) => assert_eq!(op, BinOp::Additive),
        other => panic!("expected an invalid-binary-operands error, got {:?}", other),
    }
}

#[test]
fn scenario_return_without_value() {
    // int f() { return; }
    let tu = TranslationUnit(vec![function("f", TypeSpecifier::Int, body_from("{ return; }"))]);
    match analyze_program(&tu) {
        Err(SemanticError::ReturnTypeMismatch { expected, actual }) => {
            assert!(type_eq(&expected, &Type::Int));
            assert!(type_eq(&actual, &Type::Void));
        }
        other => panic!("expected a return-type mismatch, got {:?}", other),
    }
}

#[test]
fn declarations_with_distinct_names_succeed() {
    assert!(analyze_program(&main_tu("{ int a; int b; char c; a = b; }")).is_ok());
}

#[test]
fn redeclaration_in_same_block_refused() {
    match analyze_program(&main_tu("{ int a; int a; }")) {
        Err(SemanticError::VariableRedeclaration(n)) => assert_eq!(n, "a"),
        other => panic!("expected a redeclaration error, got {:?}", other),
    }
}

#[test]
fn shadowing_across_blocks_is_permitted() {
    assert!(analyze_program(&main_tu("{ int a = 0; { char a = 'x'; a = 'y'; } a = 1; }")).is_ok());
}

#[test]
fn break_and_continue_inside_loops() {
    assert!(analyze_program(&main_tu("{ while (1) break; }")).is_ok());
    assert!(analyze_program(&main_tu("{ while (1) continue; }")).is_ok());
    assert!(analyze_program(&main_tu("{ do continue; while (1); }")).is_ok());
    assert!(analyze_program(&main_tu("{ for (;;) break; }")).is_ok());
}

#[test]
fn break_legal_in_switch_continue_not() {
    assert!(analyze_program(&main_tu("{ int x = 0; switch (x) break; }")).is_ok());
    assert!(matches!(
        analyze_program(&main_tu("{ int x = 0; switch (x) continue; }")),
        Err(SemanticError::IllegalJump(_))
    ));
}

#[test]
fn case_agrees_inside_int_switch() {
    assert!(analyze_program(&main_tu("{ int x = 0; switch (x) case 1: ; }")).is_ok());
}

#[test]
fn case_and_default_need_a_switch() {
    assert!(matches!(analyze_program(&main_tu("{ case 1: ; }")), Err(SemanticError::CaseOutsideSwitch(_))));
    assert!(matches!(
        analyze_program(&main_tu("{ default: ; }")),
        Err(SemanticError::DefaultOutsideSwitch(_))
    ));
}

#[test]
fn goto_reaches_an_earlier_label() {
    assert!(analyze_program(&main_tu("{ here: goto here; }")).is_ok());
}

#[test]
fn label_redeclaration_refused() {
    match analyze_program(&main_tu("{ l: ; l: ; }")) {
        Err(SemanticError::LabelRedeclaration(ls)) => match ls {
            LabeledStmt::Ident(n, _) => assert_eq!(n, "l"),
            other => panic!("expected the offending label, got {:?}", other),
        },
        other => panic!("expected a label redeclaration error, got {:?}", other),
    }
}

#[test]
fn undefined_variable_reported() {
    match analyze_program(&main_tu("{ y; }")) {
        Err(SemanticError::UndefinedVariable(n)) => assert_eq!(n, "y"),
        other => panic!("expected an undefined-variable error, got {:?}", other),
    }
}

#[test]
fn initializer_must_match_exactly() {
    match analyze_program(&main_tu("{ int a = 'c'; }")) {
        Err(SemanticError::TypeMismatch(a, b)) => {
            assert!(type_eq(&a, &Type::Int));
            assert!(type_eq(&b, &Type::Char));
        }
        other => panic!("expected a type mismatch, got {:?}", other),
    }
}

#[test]
fn if_test_must_be_int() {
    match analyze_program(&main_tu("{ double d; if (d) ; }")) {
        Err(SemanticError::UnexpectedType { expected, actual }) => {
            assert!(type_eq(&expected, &Type::Int));
            assert!(type_eq(&actual, &Type::Double));
        }
        other => panic!("expected an unexpected-type error, got {:?}", other),
    }
}

#[test]
fn no_promotion_between_numeric_kinds() {
    assert!(matches!(
        analyze_program(&main_tu("{ float f = 1.5; double d; f * d; }")),
        Err(SemanticError::InvalidBinaryOperands(BinOp::Multiplicative))
    ));
    match analyze_program(&main_tu("{ float f = 2.5; 1 * f; }")) {
        Err(SemanticError::InvalidBinaryOperands(op)) => assert_eq!(op, BinOp::Multiplicative),
        other => panic!("expected an invalid-binary-operands error, got {:?}", other),
    }
    // matching kinds are accepted and keep their type
    assert!(analyze_program(&main_tu("{ double d; double e; d = d * e; }")).is_ok());
}

#[test]
fn modulo_restricted_to_int() {
    assert!(analyze_program(&main_tu("{ int a = 7; a = a % 2; }")).is_ok());
    match analyze_program(&main_tu("{ double d; d % d; }")) {
        Err(SemanticError::InvalidBinaryOperands(op)) => assert_eq!(op, BinOp::Multiplicative),
        other => panic!("expected an invalid-binary-operands error, got {:?}", other),
    }
}

#[test]
fn shift_restricted_to_int() {
    assert!(analyze_program(&main_tu("{ int a = 1; a = a << 2; }")).is_ok());
    match analyze_program(&main_tu("{ char c = 'x'; c << 1; }")) {
        Err(SemanticError::InvalidBinaryOperands(op)) => assert_eq!(op, BinOp::Shift),
        other => panic!("expected an invalid-binary-operands error, got {:?}", other),
    }
}

#[test]
fn relational_keeps_operand_type_equality_gives_int() {
    // double < double types as double, so an if over it is refused
    assert!(matches!(
        analyze_program(&main_tu("{ double d; if (d < d) ; }")),
        Err(SemanticError::UnexpectedType { .. })
    ));
    // double == double types as int, so the same if passes
    assert!(analyze_program(&main_tu("{ double d; if (d == d) ; }")).is_ok());
}

#[test]
fn unary_operand_rules() {
    assert!(matches!(
        analyze_program(&main_tu("{ double d; !d; }")),
        Err(SemanticError::InvalidUnaryOperand(_))
    ));
    assert!(matches!(
        analyze_program(&main_tu("{ double d; ~d; }")),
        Err(SemanticError::InvalidUnaryOperand(_))
    ));
    assert!(analyze_program(&main_tu("{ char c = 'x'; ~c; }")).is_ok());
    assert!(analyze_program(&main_tu("{ int a = 1; !a; -a; +a; --a; a--; }")).is_ok());
}

#[test]
fn dereference_needs_a_pointer() {
    assert!(analyze_program(&main_tu("{ int a = 0; int *p = &a; *p = 1; }")).is_ok());
    assert!(matches!(
        analyze_program(&main_tu("{ int a = 0; *a; }")),
        Err(SemanticError::InvalidDereferenceOperand(_))
    ));
}

#[test]
fn casts_follow_the_allow_list() {
    assert!(analyze_program(&main_tu("{ int a = (int)'c'; double d = (double)1; }")).is_ok());
    match analyze_program(&main_tu("{ double d = (double)'c'; }")) {
        Err(SemanticError::InvalidTypeCast { from, to }) => {
            assert!(type_eq(&from, &Type::Char));
            assert!(type_eq(&to, &Type::Double));
        }
        other => panic!("expected an invalid-cast error, got {:?}", other),
    }
}

#[test]
fn sizeof_always_types_int() {
    assert!(analyze_program(&main_tu("{ int a = sizeof(int); int b = sizeof a; }")).is_ok());
}

#[test]
fn ternary_branches_must_agree() {
    assert!(analyze_program(&main_tu("{ int a = 1; int b = a ? 2 : 3; }")).is_ok());
    assert!(matches!(
        analyze_program(&main_tu("{ int a = 1; a ? 2 : 'c'; }")),
        Err(SemanticError::TypeMismatch(_, _))
    ));
}

#[test]
fn member_access_needs_a_struct() {
    assert!(matches!(analyze_program(&main_tu("{ int a = 0; a.x; }")), Err(SemanticError::NotAStruct(_))));
    assert!(matches!(
        analyze_program(&main_tu("{ int a = 0; a->x; }")),
        Err(SemanticError::NotAPointerToStruct(_))
    ));
}

#[test]
fn array_indexing_needs_int_index() {
    assert!(analyze_program(&main_tu("{ int a[3]; a[0] = 1; }")).is_ok());
    assert!(matches!(
        analyze_program(&main_tu("{ int a[3]; a['c']; }")),
        Err(SemanticError::InvalidPostfixOperand(_))
    ));
}

#[test]
fn call_through_declared_function() {
    // a prototype declared as a variable of function type is callable
    assert!(analyze_program(&main_tu("{ int f(int x); int r = f(3); }")).is_ok());
    assert!(matches!(
        analyze_program(&main_tu("{ int f(int x); f(); }")),
        Err(SemanticError::InvalidFnCall(_))
    ));
    assert!(matches!(
        analyze_program(&main_tu("{ int f(int x); f('c'); }")),
        Err(SemanticError::InvalidFnCall(_))
    ));
    assert!(matches!(analyze_program(&main_tu("{ int a = 0; a(); }")), Err(SemanticError::NotAFunction(_))));
}

#[test]
fn fail_fast_keeps_first_error() {
    // both statements are wrong; the first one is reported
    match analyze_program(&main_tu("{ y; z; }")) {
        Err(SemanticError::UndefinedVariable(n)) => assert_eq!(n, "y"),
        other => panic!("expected the first error, got {:?}", other),
    }
}

#[test]
fn function_sees_its_parameters() {
    let tu = TranslationUnit(vec![ExternalDeclaration::FunctionDefinition(
        FunctionDefinition {
            declaration_specifiers: vec![DeclarationSpecifier::TypeSpecifier(TypeSpecifier::Int)],
            declarator: Declarator {
                pointer: None,
                d_declarator: DirectDeclarator::Function(
                    Box::new(DirectDeclarator::Ident("twice".to_string())),
                    vec![ParameterDeclaration {
                        declaration_specifiers: vec![DeclarationSpecifier::TypeSpecifier(
                            TypeSpecifier::Int,
                        )],
                        declarator: Declarator {
                            pointer: None,
                            d_declarator: DirectDeclarator::Ident("x".to_string()),
                        },
                    }],
                ),
            },
            body: body_from("{ return x + x; }"),
        },
    )]);
    assert!(analyze_program(&tu).is_ok());
}

#[test]
fn return_value_must_match_declared_type() {
    let tu = TranslationUnit(vec![function(
        "f",
        TypeSpecifier::Int,
        body_from("{ return 'c'; }"),
    )]);
    assert!(matches!(
        analyze_program(&tu),
        Err(SemanticError::ReturnTypeMismatch { .. })
    ));
    let tu = TranslationUnit(vec![function("g", TypeSpecifier::Void, body_from("{ return; }"))]);
    assert!(analyze_program(&tu).is_ok());
    let tu = TranslationUnit(vec![function(
        "h",
        TypeSpecifier::Void,
        body_from("{ return 1; }"),
    )]);
    assert!(matches!(
        analyze_program(&tu),
        Err(SemanticError::ReturnTypeMismatch { .. })
    ));
}

#[test]
fn return_outside_function_refused() {
    let mut ctx = SemanticContext::new();
    let tokens = lex("return 1;").unwrap();
    let mut pctx = ParseContext::new();
    let (stmt, _) = parse_stmt(&tokens, 0, &mut pctx).unwrap();
    assert!(matches!(
        lang::stmts::analyze_stmt(&stmt, &mut ctx),
        Err(SemanticError::ReturnOutsideFn(_))
    ));
}

#[test]
fn enum_constants_declared_by_declaration() {
    // enum { RED, GREEN } c; then RED resolves as an int constant
    let decl = Declaration {
        declaration_specifiers: vec![DeclarationSpecifier::TypeSpecifier(
            TypeSpecifier::EnumSpecifier(EnumSpecifier {
                name: "color".to_string(),
                constants: vec!["RED".to_string(), "GREEN".to_string()],
            }),
        )],
        init_declarators: vec![InitDeclarator::Declared(Declarator {
            pointer: None,
            d_declarator: DirectDeclarator::Ident("c".to_string()),
        })],
    };
    let mut items = vec![BlockItem::Declaration(decl)];
    match body_from("{ int a = 0; }").0.pop() {
        Some(item) => items.push(item),
        None => panic!("expected one item"),
    }
    let tu = TranslationUnit(vec![function(
        "main",
        TypeSpecifier::Int,
        CompoundStmt(items),
    )]);
    assert!(analyze_program(&tu).is_ok());
}

#[test]
fn enum_constant_redeclared_in_same_scope() {
    let decl = |name: &str| Declaration {
        declaration_specifiers: vec![DeclarationSpecifier::TypeSpecifier(
            TypeSpecifier::EnumSpecifier(EnumSpecifier {
                name: name.to_string(),
                constants: vec!["RED".to_string()],
            }),
        )],
        init_declarators: vec![InitDeclarator::Declared(Declarator {
            pointer: None,
            d_declarator: DirectDeclarator::Ident(format!("{}_v", name)),
        })],
    };
    let tu = TranslationUnit(vec![function(
        "main",
        TypeSpecifier::Int,
        CompoundStmt(vec![
            BlockItem::Declaration(decl("a")),
            BlockItem::Declaration(decl("b")),
        ]),
    )]);
    match analyze_program(&tu) {
        Err(SemanticError::EnumRedeclaration(n)) => assert_eq!(n, "RED"),
        other => panic!("expected an enum redeclaration error, got {:?}", other),
    }
}

#[test]
fn brace_initializer_refused() {
    let decl = Declaration {
        declaration_specifiers: vec![DeclarationSpecifier::TypeSpecifier(TypeSpecifier::Int)],
        init_declarators: vec![InitDeclarator::Initialized(
            Declarator {
                pointer: None,
                d_declarator: DirectDeclarator::Ident("a".to_string()),
            },
            Initializer::InitializerList(vec![]),
        )],
    };
    let tu = TranslationUnit(vec![ExternalDeclaration::Declaration(decl)]);
    assert!(matches!(analyze_program(&tu), Err(SemanticError::InvalidInitializer)));
}

#[test]
fn function_definition_shape_checked() {
    // a declarator without a parameter list is no function definition
    let bad = ExternalDeclaration::FunctionDefinition(FunctionDefinition {
        declaration_specifiers: vec![DeclarationSpecifier::TypeSpecifier(TypeSpecifier::Int)],
        declarator: Declarator {
            pointer: None,
            d_declarator: DirectDeclarator::Ident("f".to_string()),
        },
        body: CompoundStmt(vec![]),
    });
    assert!(matches!(
        analyze_program(&TranslationUnit(vec![bad])),
        Err(SemanticError::InvalidFunctionDefinition(_))
    ));
}

#[test]
fn typedef_registers_an_alias() {
    // typedef int T; then a declaration T t; resolves through the alias
    let td = Declaration {
        declaration_specifiers: vec![
            DeclarationSpecifier::StorageClassSpecifier(StorageClassSpecifier::TypeDef),
            DeclarationSpecifier::TypeSpecifier(TypeSpecifier::Int),
        ],
        init_declarators: vec![InitDeclarator::Declared(Declarator {
            pointer: None,
            d_declarator: DirectDeclarator::Ident("T".to_string()),
        })],
    };
    let usage = Declaration {
        declaration_specifiers: vec![DeclarationSpecifier::TypeSpecifier(
            TypeSpecifier::TypeDefName("T".to_string()),
        )],
        init_declarators: vec![InitDeclarator::Declared(Declarator {
            pointer: None,
            d_declarator: DirectDeclarator::Ident("t".to_string()),
        })],
    };
    let tu = TranslationUnit(vec![
        ExternalDeclaration::Declaration(td),
        ExternalDeclaration::Declaration(usage),
    ]);
    assert!(analyze_program(&tu).is_ok());
}

#[test]
fn three_specifier_scan_rejects_misplaced_storage_class() {
    // auto cannot open a function definition's specifiers
    let bad = ExternalDeclaration::FunctionDefinition(FunctionDefinition {
        declaration_specifiers: vec![
            DeclarationSpecifier::StorageClassSpecifier(StorageClassSpecifier::Auto),
            DeclarationSpecifier::TypeSpecifier(TypeSpecifier::Int),
        ],
        declarator: Declarator {
            pointer: None,
            d_declarator: DirectDeclarator::Function(
                Box::new(DirectDeclarator::Ident("f".to_string())),
                vec![],
            ),
        },
        body: CompoundStmt(vec![]),
    });
    assert!(matches!(
        analyze_program(&TranslationUnit(vec![bad])),
        Err(SemanticError::InvalidDeclarationSpecifiers(_))
    ));
}

#[test]
fn static_function_definition_accepted() {
    let good = ExternalDeclaration::FunctionDefinition(FunctionDefinition {
        declaration_specifiers: vec![
            DeclarationSpecifier::StorageClassSpecifier(StorageClassSpecifier::Static),
            DeclarationSpecifier::TypeSpecifier(TypeSpecifier::Int),
        ],
        declarator: Declarator {
            pointer: None,
            d_declarator: DirectDeclarator::Function(
                Box::new(DirectDeclarator::Ident("f".to_string())),
                vec![],
            ),
        },
        body: body_from("{ return 0; }"),
    });
    assert!(analyze_program(&TranslationUnit(vec![good])).is_ok());
}

#[test]
fn string_literal_types_as_string() {
    // a string literal is its own type, assignable to nothing numeric
    assert!(matches!(
        analyze_program(&main_tu("{ int a = \"hi\"; }")),
        Err(SemanticError::TypeMismatch(_, _))
    ));
}

#[test]
fn scope_ends_with_its_block() {
    // the inner declaration dies with its block
    assert!(matches!(
        analyze_program(&main_tu("{ { int a = 0; } a; }")),
        Err(SemanticError::UndefinedVariable(_))
    ));
}

fn point_struct_decl(var: &str) -> Declaration {
    Declaration {
        declaration_specifiers: vec![DeclarationSpecifier::TypeSpecifier(
            TypeSpecifier::StructOrUnionSpecifier(StructOrUnionSpecifier {
                is_union: false,
                name: "point".to_string(),
                members: vec![StructMember {
                    specifier_qualifiers: vec![lang::ast::SpecifierQualifier::TypeSpecifier(
                        TypeSpecifier::Int,
                    )],
                    declarator: Declarator {
                        pointer: None,
                        d_declarator: DirectDeclarator::Ident("x".to_string()),
                    },
                }],
            }),
        )],
        init_declarators: vec![InitDeclarator::Declared(Declarator {
            pointer: None,
            d_declarator: DirectDeclarator::Ident(var.to_string()),
        })],
    }
}

fn point_tu(src: &str) -> TranslationUnit {
    let mut items = vec![BlockItem::Declaration(point_struct_decl("p"))];
    items.extend(body_from(src).0);
    TranslationUnit(vec![function("main", TypeSpecifier::Int, CompoundStmt(items))])
}

#[test]
fn member_access_resolves_declared_field() {
    assert!(analyze_program(&point_tu("{ p.x = 1; int y = p.x; }")).is_ok());
}

#[test]
fn member_access_unknown_field() {
    match analyze_program(&point_tu("{ p.z; }")) {
        Err(SemanticError::UndefinedMember { struct_name, field }) => {
            assert_eq!(struct_name, "point");
            assert_eq!(field, "z");
        }
        other => panic!("expected an undefined-member error, got {:?}", other),
    }
}

#[test]
fn pointer_member_access_goes_through() {
    assert!(analyze_program(&point_tu("{ (&p)->x = 2; }")).is_ok());
    assert!(matches!(
        analyze_program(&point_tu("{ (&p)->z; }")),
        Err(SemanticError::UndefinedMember { .. })
    ));
}

#[test]
fn pointer_casts_between_pointers() {
    assert!(analyze_program(&main_tu("{ int a = 0; int *p = (int*)&a; }")).is_ok());
    assert!(matches!(
        analyze_program(&main_tu("{ int a = 0; (int*)a; }")),
        Err(SemanticError::InvalidTypeCast { .. })
    ));
}

#[test]
fn switch_takes_the_test_type_as_discriminant() {
    // a char discriminant is legal, and char cases agree with it
    assert!(analyze_program(&main_tu("{ char c = 'x'; switch (c) case 'a': ; }")).is_ok());
    // even a double discriminant opens the switch scope; only case labels
    // are then constrained by the pair rule
    assert!(analyze_program(&main_tu("{ double d; switch (d) ; }")).is_ok());
    assert!(analyze_program(&main_tu("{ double d; switch (d) default: ; }")).is_ok());
}

#[test]
fn case_against_char_discriminant_must_be_char() {
    match analyze_program(&main_tu("{ char c = 'x'; switch (c) case 1: ; }")) {
        Err(SemanticError::UnexpectedType { expected, actual }) => {
            assert!(type_eq(&expected, &Type::Char));
            assert!(type_eq(&actual, &Type::Int));
        }
        other => panic!("expected an unexpected-type error, got {:?}", other),
    }
}
