use lang::scope::{ScopeKind, SemanticContext, Symbol};
use lang::types::{type_eq, Type};

#[test]
fn declare_and_find_var() {
    let mut ctx = SemanticContext::new();
    assert!(ctx.declare_var("a".to_string(), Type::Int));
    let found = ctx.find_var(&"a".to_string()).expect("a must resolve");
    assert!(type_eq(found, &Type::Int));
    assert!(ctx.find_var(&"b".to_string()).is_none());
}

#[test]
fn redeclaration_same_scope_refused() {
    let mut ctx = SemanticContext::new();
    assert!(ctx.declare_var("a".to_string(), Type::Int));
    assert!(!ctx.declare_var("a".to_string(), Type::Char));
    // the first declaration still stands
    let found = ctx.find_var(&"a".to_string()).expect("a must resolve");
    assert!(type_eq(found, &Type::Int));
}

#[test]
fn shadowing_inner_scope_wins() {
    let mut ctx = SemanticContext::new();
    assert!(ctx.declare_var("a".to_string(), Type::Int));
    ctx.push_scope(ScopeKind::Regular);
    assert!(ctx.declare_var("a".to_string(), Type::Char));
    let found = ctx.find_var(&"a".to_string()).expect("a must resolve");
    assert!(type_eq(found, &Type::Char));
    ctx.pop_scope();
    let found = ctx.find_var(&"a".to_string()).expect("a must resolve");
    assert!(type_eq(found, &Type::Int));
}

#[test]
fn labels_span_the_whole_chain() {
    let mut ctx = SemanticContext::new();
    assert!(ctx.declare_label("out".to_string()));
    ctx.push_scope(ScopeKind::Regular);
    // the same label anywhere on the chain is already a conflict
    assert!(!ctx.declare_label("out".to_string()));
    assert!(ctx.contains_label(&"out".to_string()));
    assert!(ctx.find_label(&"out".to_string()).is_some());
    assert!(!ctx.contains_label(&"elsewhere".to_string()));
}

#[test]
fn enum_lookup_outermost_first() {
    let mut ctx = SemanticContext::new();
    assert!(ctx.declare_enum_invariant("RED".to_string(), Type::Int));
    ctx.push_scope(ScopeKind::Regular);
    // an empty scope in between does not hide the outer constant
    ctx.push_scope(ScopeKind::Regular);
    assert!(ctx.declare_enum_invariant("RED".to_string(), Type::Char));
    let found = ctx.find_enum_invariant(&"RED".to_string()).expect("RED must resolve");
    // outermost-first: the outer constant wins, the converse of variables
    assert!(type_eq(found, &Type::Int));
}

#[test]
fn enum_redeclaration_same_scope_refused() {
    let mut ctx = SemanticContext::new();
    assert!(ctx.declare_enum_invariant("RED".to_string(), Type::Int));
    assert!(!ctx.declare_enum_invariant("RED".to_string(), Type::Int));
}

#[test]
fn control_scopes_searched_outward() {
    let mut ctx = SemanticContext::new();
    assert!(ctx.curr_fn_scope().is_none());
    assert!(ctx.curr_switch_scope().is_none());
    assert!(!ctx.in_loop());
    assert!(!ctx.in_switch());
    ctx.push_scope(ScopeKind::Fn(Type::Int));
    ctx.push_scope(ScopeKind::Switch(Type::Int));
    ctx.push_scope(ScopeKind::Loop);
    ctx.push_scope(ScopeKind::Regular);
    // a loop scope inside the switch does not hide the switch, nor the
    // switch the function
    assert!(ctx.in_loop());
    assert!(ctx.in_switch());
    assert!(type_eq(ctx.curr_fn_scope().unwrap(), &Type::Int));
    assert!(type_eq(ctx.curr_switch_scope().unwrap(), &Type::Int));
    ctx.pop_scope();
    ctx.pop_scope();
    assert!(!ctx.in_loop());
    assert!(ctx.in_switch());
}

#[test]
fn depth_tracks_push_and_pop() {
    let mut ctx = SemanticContext::new();
    assert_eq!(ctx.depth(), 1);
    ctx.push_scope(ScopeKind::Loop);
    assert_eq!(ctx.depth(), 2);
    ctx.pop_scope();
    assert_eq!(ctx.depth(), 1);
}

#[test]
fn writing_through_the_innermost_scope() {
    let mut ctx = SemanticContext::new();
    ctx.curr_scope_mut().symbols.push(Symbol::Var {
        name: "a".to_string(),
        ty: Type::Int,
    });
    assert!(ctx.find_var(&"a".to_string()).is_some());
    assert_eq!(ctx.curr_scope().symbols.len(), 1);
}
