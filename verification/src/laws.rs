//! The library's stated laws, proved once and for all over the same spec
//! functions that every analyzer contract uses.

use vstd::prelude::*;

use crate::ast::{BlockItem, Declaration, InitDeclarator, JumpStmt, LabeledStmt};
use crate::error::ErrV;
use crate::exprs::sem_conditional_expr;
use crate::scope::{
    push_sym, scope_find_enum, scope_find_var, scope_has_var, stack_find_enum, stack_find_var,
    stack_in_loop, stack_in_switch, stack_switch_ty, ScopeV, SymbolV,
};
use crate::specifiers::{
    count_kind, ds_has_typedef, ds_type_specs, pointer_wrap, sem_decl_specs_ty, sem_declarator,
    table_lookup, ts_kind, TsKind,
};
use crate::stmts::{
    ds_enum_constants, lemma_push_syms_empty, push_syms, sem_block_item, sem_block_items,
    sem_declaration, sem_declare_enums, sem_declare_name, sem_init_declarator, sem_initializer,
    sem_init_declarators, sem_jump_stmt, sem_labeled_stmt, sem_stmt,
};
use crate::types::TypeV;

verus! {

/// The declarator a declaration's single init declarator wraps.
pub open spec fn declaration_declarator(d: Declaration) -> crate::ast::Declarator
    recommends
        d.init_declarators@.len() == 1,
{
    match d.init_declarators@[0] {
        InitDeclarator::Declared(dc) => dc,
        InitDeclarator::Initialized(dc, init) => dc,
    }
}

/// A declaration of one fresh name succeeds: where the specifier list
/// resolves, the declarator composes a name not yet declared as a
/// variable in the innermost scope, and any initializer types to
/// exactly the declared type, declaration analysis returns success and
/// registers exactly that name.
pub proof fn lemma_declaration_succeeds(
    d: Declaration,
    st: Seq<ScopeV>,
    base: TypeV,
    name: Seq<char>,
    ty: TypeV,
)
    requires
        st.len() >= 1,
        ds_enum_constants(d.declaration_specifiers@).len() == 0,
        sem_decl_specs_ty(d.declaration_specifiers@, st) == Ok::<TypeV, ErrV>(base),
        !ds_has_typedef(d.declaration_specifiers@),
        d.init_declarators@.len() == 1,
        sem_declarator(base, declaration_declarator(d), st) == Ok::<(Seq<char>, TypeV), ErrV>(
            (name, ty),
        ),
        d.init_declarators@[0] matches InitDeclarator::Initialized(dc, init)
            ==> sem_initializer(init, st) == Ok::<TypeV, ErrV>(ty),
        !scope_has_var(st.last().symbols, name),
    ensures
        sem_declaration(d, st).1 is Ok,
        sem_declaration(d, st).0 == seq![SymbolV::Var { name: name, ty: ty }],
{
    assert(ds_enum_constants(d.declaration_specifiers@) =~= Seq::<String>::empty());
    assert(sem_declare_enums(Seq::<String>::empty(), st) == (
        Seq::<SymbolV>::empty(),
        Ok::<(), ErrV>(()),
    ));
    lemma_push_syms_empty(st);
    let ids = d.init_declarators@;
    assert(sem_init_declarator(ids[0], base, false, st) == (
        seq![SymbolV::Var { name: name, ty: ty }],
        Ok::<(), ErrV>(()),
    ));
    assert(ids.first() == ids[0]);
    assert(ids.drop_first() =~= Seq::<InitDeclarator>::empty());
    assert(sem_init_declarators(Seq::<InitDeclarator>::empty(), base, false, crate::stmts::push_syms(st, seq![SymbolV::Var { name: name, ty: ty }])) == (
        Seq::<SymbolV>::empty(),
        Ok::<(), ErrV>(()),
    ));
    assert(sem_init_declarators(ids, base, false, st).1 is Ok);
    assert(Seq::<SymbolV>::empty() + (seq![SymbolV::Var { name: name, ty: ty }] + Seq::<
        SymbolV,
    >::empty()) =~= seq![SymbolV::Var { name: name, ty: ty }]);
}

/// `continue` is legal exactly inside a loop, and `break` exactly inside
/// a loop or a switch, read off the open scope chain at that point.
pub proof fn lemma_break_continue(st: Seq<ScopeV>)
    ensures
        sem_jump_stmt(JumpStmt::Continue, st) is Ok <==> stack_in_loop(st),
        sem_jump_stmt(JumpStmt::Break, st) is Ok <==> stack_in_loop(st) || stack_in_switch(st),
{
}

/// A `case expr:` label succeeds exactly when an enclosing switch
/// exists, its discriminant and the label's expression are both `int` or
/// both `char`, and the labeled statement itself succeeds.
pub proof fn lemma_case_label(expr: crate::ast::ConditionalExpr, inner: Box<crate::ast::Stmt>, st: Seq<ScopeV>, et: TypeV)
    requires
        sem_conditional_expr(expr, st) == Ok::<TypeV, ErrV>(et),
    ensures
        sem_labeled_stmt(LabeledStmt::Case(expr, inner), st).1 is Ok <==> (
        stack_switch_ty(st) matches Some(swt) && ((swt is Int && et is Int) || (swt is Char
            && et is Char)) && sem_stmt(*inner, st).1 is Ok),
{
}

/// Shadowing: a variable declared in the innermost scope is what
/// innermost-first lookup returns, whatever any outer scope holds.
pub proof fn lemma_shadowing(st: Seq<ScopeV>, name: Seq<char>, ty: TypeV)
    requires
        st.len() >= 1,
    ensures
        stack_find_var(push_sym(st, SymbolV::Var { name: name, ty: ty }), name) == Some(ty),
{
    let st2 = push_sym(st, SymbolV::Var { name: name, ty: ty });
    assert(st2.last().symbols.last() == SymbolV::Var { name: name, ty: ty });
    assert(scope_find_var(st2.last().symbols, name) == Some(ty));
}

/// More generally: whenever the innermost scope itself resolves the
/// name, outer scopes are never consulted.
pub proof fn lemma_inner_scope_wins(st: Seq<ScopeV>, sc: ScopeV, name: Seq<char>, ty: TypeV)
    requires
        scope_find_var(sc.symbols, name) == Some(ty),
    ensures
        stack_find_var(st.push(sc), name) == Some(ty),
{
    assert(st.push(sc).last() == sc);
}

/// Enumeration-constant lookup is outermost-first: whenever the
/// outermost scope resolves the name, inner scopes are never consulted -
/// even when an identically-named constant lives further in.
pub proof fn lemma_enum_outermost(st: Seq<ScopeV>, name: Seq<char>, ty: TypeV)
    requires
        st.len() >= 1,
        scope_find_enum(st.first().symbols, name) == Some(ty),
    ensures
        stack_find_enum(st, name) == Some(ty),
{
}


/// A rank class counted zero times has no occurrence.
pub proof fn lemma_count_kind_zero(s: Seq<crate::ast::TypeSpecifier>, k: TsKind)
    requires
        count_kind(s, k) == 0,
    ensures
        forall|i: int| 0 <= i < s.len() ==> ts_kind(#[trigger] s[i]) != k,
    decreases s,
{
    if s.len() > 0 {
        lemma_count_kind_zero(s.drop_last(), k);
        assert forall|i: int| 0 <= i < s.len() implies ts_kind(#[trigger] s[i]) != k by {
            if i < s.len() - 1 {
                assert(s[i] == s.drop_last()[i]);
                assert(ts_kind(s.drop_last()[i]) != k);
            } else {
                assert(s[i] == s.last());
            }
        }
    }
}

/// Appending a variable changes a scope's lookup only for that name.
pub proof fn lemma_scope_find_var_push(syms: Seq<SymbolV>, name: Seq<char>, ty: TypeV, m: Seq<
    char,
>)
    ensures
        scope_find_var(syms.push(SymbolV::Var { name: name, ty: ty }), m) == if name == m {
            Some(ty)
        } else {
            scope_find_var(syms, m)
        },
{
    let sym = SymbolV::Var { name: name, ty: ty };
    assert(syms.push(sym).last() == sym);
    assert(syms.push(sym).drop_last() =~= syms);
}

/// A block item that is one plain declaration: keyword specifiers that
/// the canonical table accepts, and a single bare named declarator.
pub open spec fn simple_declaration(b: BlockItem) -> bool {
    &&& b matches BlockItem::Declaration(d)
    &&& ds_enum_constants(d.declaration_specifiers@).len() == 0
    &&& !ds_has_typedef(d.declaration_specifiers@)
    &&& table_lookup(ds_type_specs(d.declaration_specifiers@)) is Some
    &&& d.init_declarators@.len() == 1
    &&& d.init_declarators@[0] matches InitDeclarator::Declared(dc) && dc.d_declarator is Ident
}

/// The name such a declaration declares.
pub open spec fn simple_declaration_name(b: BlockItem) -> Seq<char> {
    b->Declaration_0.init_declarators@[0]->Declared_0.d_declarator->Ident_0@
}

/// Keyword-only specifier lists resolve straight through the table,
/// whatever the stack holds.
proof fn lemma_table_specs_resolve(dss: Seq<crate::ast::DeclarationSpecifier>, st: Seq<ScopeV>)
    requires
        table_lookup(ds_type_specs(dss)) is Some,
    ensures
        sem_decl_specs_ty(dss, st) == Ok::<TypeV, ErrV>(table_lookup(ds_type_specs(dss))->0),
{
    let tss = ds_type_specs(dss);
    assert(count_kind(tss, TsKind::Struct) + count_kind(tss, TsKind::Enum) + count_kind(
        tss,
        TsKind::TypeDefName,
    ) == 0);
    lemma_count_kind_zero(tss, TsKind::Struct);
    lemma_count_kind_zero(tss, TsKind::Enum);
    lemma_count_kind_zero(tss, TsKind::TypeDefName);
}

/// Where every declared variable stays within its declaring scope and no
/// two of the declarations share a name, analysis of the declarations
/// succeeds: a run of plain declarations with pairwise distinct names,
/// each fresh in the innermost scope, analyzes without error.
pub proof fn lemma_distinct_declarations_succeed(items: Seq<BlockItem>, st: Seq<ScopeV>)
    requires
        st.len() >= 1,
        forall|i: int| 0 <= i < items.len() ==> simple_declaration(#[trigger] items[i]),
        forall|i: int, j: int|
            0 <= i < j < items.len() ==> simple_declaration_name(items[i])
                != simple_declaration_name(items[j]),
        forall|i: int|
            0 <= i < items.len() ==> !scope_has_var(
                st.last().symbols,
                simple_declaration_name(#[trigger] items[i]),
            ),
    ensures
        sem_block_items(items, st).1 is Ok,
    decreases items,
{
    if items.len() == 0 {
        return ;
    }
    let b = items.first();
    assert(b == items[0]);
    assert(simple_declaration(b));
    let d = b->Declaration_0;
    let dc = d.init_declarators@[0]->Declared_0;
    let base = table_lookup(ds_type_specs(d.declaration_specifiers@))->0;
    lemma_table_specs_resolve(d.declaration_specifiers@, st);
    let name = simple_declaration_name(b);
    let ty = match dc.pointer {
        Some(p) => pointer_wrap(base, p.levels as nat),
        None => base,
    };
    assert(sem_declarator(base, dc, st) == Ok::<(Seq<char>, TypeV), ErrV>((name, ty)));
    lemma_declaration_succeeds(d, st, base, name, ty);
    assert(sem_block_item(b, st).1 is Ok);
    assert(sem_block_item(b, st).0 == seq![SymbolV::Var { name: name, ty: ty }]);
    let st1 = push_syms(st, seq![SymbolV::Var { name: name, ty: ty }]);
    assert(st1.last().symbols =~= st.last().symbols.push(SymbolV::Var { name: name, ty: ty }));
    let rest = items.drop_first();
    assert(forall|i: int| 0 <= i < rest.len() ==> rest[i] == (#[trigger] items[i + 1]));
    assert forall|i: int| 0 <= i < rest.len() implies !scope_has_var(
        st1.last().symbols,
        simple_declaration_name(#[trigger] rest[i]),
    ) by {
        lemma_scope_find_var_push(
            st.last().symbols,
            name,
            ty,
            simple_declaration_name(rest[i]),
        );
        assert(simple_declaration_name(rest[i]) == simple_declaration_name(items[i + 1]));
        assert(simple_declaration_name(items[0]) != simple_declaration_name(items[i + 1]));
    }
    lemma_distinct_declarations_succeed(rest, st1);
}


/// One locally well-formed declaration at a given stack: the specifiers
/// resolve, the single declarator composes, any initializer types to the
/// declared type, and the name is fresh in the innermost scope.
pub open spec fn declaration_admissible(d: Declaration, st: Seq<ScopeV>) -> bool {
    &&& ds_enum_constants(d.declaration_specifiers@).len() == 0
    &&& !ds_has_typedef(d.declaration_specifiers@)
    &&& sem_decl_specs_ty(d.declaration_specifiers@, st) is Ok
    &&& d.init_declarators@.len() == 1
    &&& sem_declarator(
        sem_decl_specs_ty(d.declaration_specifiers@, st)->Ok_0,
        declaration_declarator(d),
        st,
    ) is Ok
    &&& (d.init_declarators@[0] matches InitDeclarator::Initialized(dc, init)
        ==> sem_initializer(init, st) == Ok::<TypeV, ErrV>(declaration_binding(d, st).1))
    &&& !scope_has_var(st.last().symbols, declaration_binding(d, st).0)
}

/// The name and type such a declaration declares.
pub open spec fn declaration_binding(d: Declaration, st: Seq<ScopeV>) -> (Seq<char>, TypeV) {
    sem_declarator(
        sem_decl_specs_ty(d.declaration_specifiers@, st)->Ok_0,
        declaration_declarator(d),
        st,
    )->Ok_0
}

/// A block of declarations, each locally well-formed at the stack its
/// predecessors leave behind.
pub open spec fn declaration_run_admissible(items: Seq<BlockItem>, st: Seq<ScopeV>) -> bool
    decreases items,
{
    items.len() == 0 || {
        &&& items[0] is Declaration
        &&& declaration_admissible(items[0]->Declaration_0, st)
        &&& declaration_run_admissible(
            items.drop_first(),
            push_syms(
                st,
                seq![
                    SymbolV::Var {
                        name: declaration_binding(items[0]->Declaration_0, st).0,
                        ty: declaration_binding(items[0]->Declaration_0, st).1,
                    },
                ],
            ),
        )
    }
}

/// Where every declared variable is declared into a scope that does not
/// already hold its name, analysis of the declarations succeeds: a run
/// of declarations, initializers included, each admissible at its point,
/// analyzes without error.
pub proof fn lemma_admissible_declarations_succeed(items: Seq<BlockItem>, st: Seq<ScopeV>)
    requires
        st.len() >= 1,
        declaration_run_admissible(items, st),
    ensures
        sem_block_items(items, st).1 is Ok,
    decreases items,
{
    if items.len() == 0 {
        return ;
    }
    let d = items[0]->Declaration_0;
    let base = sem_decl_specs_ty(d.declaration_specifiers@, st)->Ok_0;
    let name = declaration_binding(d, st).0;
    let ty = declaration_binding(d, st).1;
    lemma_declaration_succeeds(d, st, base, name, ty);
    assert(items.first() == items[0]);
    assert(sem_block_item(items[0], st).1 is Ok);
    assert(sem_block_item(items[0], st).0 == seq![SymbolV::Var { name: name, ty: ty }]);
    lemma_admissible_declarations_succeed(
        items.drop_first(),
        push_syms(st, seq![SymbolV::Var { name: name, ty: ty }]),
    );
}

} // verus!
