//! The statement analyzer: a recursive walk over statement variants that
//! opens and closes scopes, validates control-flow legality, and registers
//! declarations.
//!
//! The effect of analyzing a statement or declaration on the scope stack
//! is captured as the sequence of symbols it appends to the innermost
//! scope; nested scopes are opened and closed inside one call and leave
//! no trace.  Even a failing analysis keeps the symbols it had declared
//! before the failure, exactly as the walk leaves them.

use vstd::prelude::*;

use crate::ast::{
    BlockItem, CompoundStmt, Declaration, DeclarationSpecifier, DirectDeclarator,
    ExternalDeclaration, FunctionDefinition, InitDeclarator, Initializer, IterationStmt,
    JumpStmt, LabeledStmt, ParameterDeclaration, SelectionStmt, StorageClassSpecifier, Stmt,
    TranslationUnit, TypeSpecifier,
};
use crate::error::{res_ty_view, res_unit_view, ErrV, SemanticError};
use crate::exprs::{sem_assignment_expr, sem_conditional_expr};
use crate::scope::{
    push_sym, scope_has_enum, scope_has_var, stack_fn_ty, stack_has_label, stack_in_loop,
    stack_in_switch, stack_switch_ty, ScopeKind, ScopeKindV, ScopeV, SemanticContext, SymbolV,
};
use crate::specifiers::{
    ds_has_typedef, ds_type_specs, first_ts_index_ds, pointer_wrap, sem_decl_specs_ty,
    sem_declarator, ts_kind, TsKind,
};
use crate::types::TypeV;

verus! {

/// The stack with a run of symbols appended to its innermost scope.
pub open spec fn push_syms(st: Seq<ScopeV>, syms: Seq<SymbolV>) -> Seq<ScopeV>
    recommends
        st.len() >= 1,
{
    st.update(
        st.len() - 1,
        ScopeV { symbols: st.last().symbols + syms, kind: st.last().kind },
    )
}

/// Appending nothing changes nothing.
pub proof fn lemma_push_syms_empty(st: Seq<ScopeV>)
    requires
        st.len() >= 1,
    ensures
        push_syms(st, Seq::empty()) == st,
{
    assert(st.last().symbols + Seq::<SymbolV>::empty() =~= st.last().symbols);
    assert(push_syms(st, Seq::empty()) =~~= st);
}

/// Appending in two steps is appending the concatenation.
pub proof fn lemma_push_syms_app(st: Seq<ScopeV>, a: Seq<SymbolV>, b: Seq<SymbolV>)
    requires
        st.len() >= 1,
    ensures
        push_syms(push_syms(st, a), b) == push_syms(st, a + b),
{
    assert((st.last().symbols + a) + b =~= st.last().symbols + (a + b));
    assert(push_syms(push_syms(st, a), b) =~~= push_syms(st, a + b));
}

/// One symbol is a run of one.
pub proof fn lemma_push_sym_is_push_syms(st: Seq<ScopeV>, s: SymbolV)
    requires
        st.len() >= 1,
    ensures
        push_sym(st, s) == push_syms(st, seq![s]),
{
    assert(st.last().symbols.push(s) =~= st.last().symbols + seq![s]);
    assert(push_sym(st, s) =~~= push_syms(st, seq![s]));
}

/// The effect and outcome of analyzing a statement: the symbols it adds
/// to the innermost scope, and its result.
pub open spec fn sem_stmt(s: Stmt, st: Seq<ScopeV>) -> (Seq<SymbolV>, Result<(), ErrV>)
    decreases s,
{
    match s {
        Stmt::EmptyStmt => (Seq::empty(), Ok(())),
        Stmt::Labeled(ls) => sem_labeled_stmt(ls, st),
        Stmt::Expr(e) => (
            Seq::empty(),
            match sem_assignment_expr(e, st) {
                Ok(_) => Ok(()),
                Err(er) => Err(er),
            },
        ),
        Stmt::Compound(c) => (Seq::empty(), sem_compound_stmt(c, st)),
        Stmt::Selection(sel) => (Seq::empty(), sem_selection_stmt(sel, st)),
        Stmt::Iteration(it) => (Seq::empty(), sem_iteration_stmt(it, st)),
        Stmt::Jump(j) => (Seq::empty(), sem_jump_stmt(j, st)),
    }
}

/// A labeled statement: a goto label is declared at the innermost scope
/// after a whole-chain uniqueness check; `case` needs an enclosing switch
/// whose discriminant agrees; `default` needs any enclosing switch.
pub open spec fn sem_labeled_stmt(ls: LabeledStmt, st: Seq<ScopeV>) -> (
    Seq<SymbolV>,
    Result<(), ErrV>,
)
    decreases ls,
{
    match ls {
        LabeledStmt::Ident(label, inner) => if stack_has_label(st, label@) {
            (Seq::empty(), Err(ErrV::LabelRedeclaration(ls)))
        } else {
            let lsym = SymbolV::Label { name: label@ };
            let (d, r) = sem_stmt(*inner, push_sym(st, lsym));
            (seq![lsym] + d, r)
        },
        LabeledStmt::Case(expr, inner) => match stack_switch_ty(st) {
            None => (Seq::empty(), Err(ErrV::CaseOutsideSwitch(ls))),
            Some(swt) => match sem_conditional_expr(expr, st) {
                Err(er) => (Seq::empty(), Err(er)),
                Ok(et) => if (swt is Int && et is Int) || (swt is Char && et is Char) {
                    sem_stmt(*inner, st)
                } else {
                    (Seq::empty(), Err(ErrV::UnexpectedType { expected: swt, actual: et }))
                },
            },
        },
        LabeledStmt::Default(inner) => if stack_in_switch(st) {
            sem_stmt(*inner, st)
        } else {
            (Seq::empty(), Err(ErrV::DefaultOutsideSwitch(ls)))
        },
    }
}

/// A block: its items are analyzed in order inside a fresh regular
/// scope, which is closed again whatever the outcome.
pub open spec fn sem_compound_stmt(c: CompoundStmt, st: Seq<ScopeV>) -> Result<(), ErrV>
    decreases c,
{
    proof {
        assert(decreases_to!(c => c.0));
    }
    sem_block_items(c.0@, st.push(ScopeV { symbols: Seq::empty(), kind: ScopeKindV::Regular })).1
}

/// Block items in order; the first failure aborts the block, keeping the
/// symbols declared before it.
pub open spec fn sem_block_items(items: Seq<BlockItem>, st: Seq<ScopeV>) -> (
    Seq<SymbolV>,
    Result<(), ErrV>,
)
    decreases items,
{
    if items.len() == 0 {
        (Seq::empty(), Ok(()))
    } else {
        proof {
            assert(decreases_to!(items => items[0]));
        }
        let (d0, r0) = sem_block_item(items.first(), st);
        if r0 is Err {
            (d0, r0)
        } else {
            let (d1, r1) = sem_block_items(items.drop_first(), push_syms(st, d0));
            (d0 + d1, r1)
        }
    }
}

/// One block item: a declaration or a statement.
pub open spec fn sem_block_item(b: BlockItem, st: Seq<ScopeV>) -> (Seq<SymbolV>, Result<(), ErrV>)
    decreases b,
{
    match b {
        BlockItem::Declaration(d) => sem_declaration(d, st),
        BlockItem::Statement(s) => sem_stmt(s, st),
    }
}

/// `if`, `if`/`else` and `switch`: an `if` test must type to `int`
/// exactly, while a switch takes its test's type as the discriminant;
/// each branch gets a scope of its own.
pub open spec fn sem_selection_stmt(sel: SelectionStmt, st: Seq<ScopeV>) -> Result<(), ErrV>
    decreases sel,
{
    match sel {
        SelectionStmt::If { test, pass } => match sem_assignment_expr(test, st) {
            Err(er) => Err(er),
            Ok(tt) => if !(tt is Int) {
                Err(ErrV::UnexpectedType { expected: TypeV::Int, actual: tt })
            } else {
                sem_stmt(
                    *pass,
                    st.push(ScopeV { symbols: Seq::empty(), kind: ScopeKindV::Regular }),
                ).1
            },
        },
        SelectionStmt::IfElse { test, pass, fail } => match sem_assignment_expr(test, st) {
            Err(er) => Err(er),
            Ok(tt) => if !(tt is Int) {
                Err(ErrV::UnexpectedType { expected: TypeV::Int, actual: tt })
            } else {
                match sem_stmt(
                    *pass,
                    st.push(ScopeV { symbols: Seq::empty(), kind: ScopeKindV::Regular }),
                ).1 {
                    Err(er) => Err(er),
                    Ok(u) => sem_stmt(
                        *fail,
                        st.push(ScopeV { symbols: Seq::empty(), kind: ScopeKindV::Regular }),
                    ).1,
                }
            },
        },
        SelectionStmt::Switch { test, pass } => match sem_assignment_expr(test, st) {
            Err(er) => Err(er),
            Ok(tt) => sem_stmt(
                *pass,
                st.push(ScopeV { symbols: Seq::empty(), kind: ScopeKindV::Switch(tt) }),
            ).1,
        },
    }
}

/// `while`, `do`/`while` and `for`: loop bodies run in a loop scope; the
/// test, where present, must type to `int`.
pub open spec fn sem_iteration_stmt(it: IterationStmt, st: Seq<ScopeV>) -> Result<(), ErrV>
    decreases it,
{
    match it {
        IterationStmt::While { test, body } => match sem_assignment_expr(test, st) {
            Err(er) => Err(er),
            Ok(tt) => if !(tt is Int) {
                Err(ErrV::UnexpectedType { expected: TypeV::Int, actual: tt })
            } else {
                sem_stmt(
                    *body,
                    st.push(ScopeV { symbols: Seq::empty(), kind: ScopeKindV::Loop }),
                ).1
            },
        },
        IterationStmt::DoWhile { test, body } => match sem_stmt(
            *body,
            st.push(ScopeV { symbols: Seq::empty(), kind: ScopeKindV::Loop }),
        ).1 {
            Err(er) => Err(er),
            Ok(u) => match sem_assignment_expr(test, st) {
                Err(er) => Err(er),
                Ok(tt) => if !(tt is Int) {
                    Err(ErrV::UnexpectedType { expected: TypeV::Int, actual: tt })
                } else {
                    Ok(())
                },
            },
        },
        IterationStmt::For { init, test, update, body } => {
            let init_r: Result<(), ErrV> = match init {
                None => Ok(()),
                Some(e) => match sem_assignment_expr(e, st) {
                    Err(er) => Err(er),
                    Ok(_) => Ok(()),
                },
            };
            match init_r {
                Err(er) => Err(er),
                Ok(_) => {
                    let test_r: Result<(), ErrV> = match test {
                        None => Ok(()),
                        Some(e) => match sem_assignment_expr(e, st) {
                            Err(er) => Err(er),
                            Ok(tt) => if !(tt is Int) {
                                Err(ErrV::UnexpectedType { expected: TypeV::Int, actual: tt })
                            } else {
                                Ok(())
                            },
                        },
                    };
                    match test_r {
                        Err(er) => Err(er),
                        Ok(_) => {
                            let update_r: Result<(), ErrV> = match update {
                                None => Ok(()),
                                Some(e) => match sem_assignment_expr(e, st) {
                                    Err(er) => Err(er),
                                    Ok(_) => Ok(()),
                                },
                            };
                            match update_r {
                                Err(er) => Err(er),
                                Ok(_) => sem_stmt(
                                    *body,
                                    st.push(
                                        ScopeV { symbols: Seq::empty(), kind: ScopeKindV::Loop },
                                    ),
                                ).1,
                            }
                        },
                    }
                },
            }
        },
    }
}

/// `goto`, `continue`, `break` and `return`: legality is read off the
/// open scope chain, and a returned value must equal the enclosing
/// function's declared return type exactly.
pub open spec fn sem_jump_stmt(j: JumpStmt, st: Seq<ScopeV>) -> Result<(), ErrV>
    decreases j,
{
    match j {
        JumpStmt::Goto(label) => if stack_has_label(st, label@) {
            Ok(())
        } else {
            Err(ErrV::UndefinedLabel(label@))
        },
        JumpStmt::Continue => if stack_in_loop(st) {
            Ok(())
        } else {
            Err(ErrV::IllegalJump(j))
        },
        JumpStmt::Break => if stack_in_loop(st) || stack_in_switch(st) {
            Ok(())
        } else {
            Err(ErrV::IllegalJump(j))
        },
        JumpStmt::Return(opt) => match stack_fn_ty(st) {
            None => Err(ErrV::ReturnOutsideFn(j)),
            Some(rt) => match opt {
                None => if rt is Void {
                    Ok(())
                } else {
                    Err(ErrV::ReturnTypeMismatch { expected: rt, actual: TypeV::Void })
                },
                Some(e) => match sem_assignment_expr(e, st) {
                    Err(er) => Err(er),
                    Ok(at) => if rt is Void {
                        Err(ErrV::ReturnTypeMismatch { expected: TypeV::Void, actual: at })
                    } else if rt == at {
                        Ok(())
                    } else {
                        Err(ErrV::ReturnTypeMismatch { expected: rt, actual: at })
                    },
                },
            },
        },
    }
}

/// The enumeration constants a declaration's specifier list introduces:
/// those of a lone enumeration specifier, none otherwise.
pub open spec fn ds_enum_constants(dss: Seq<DeclarationSpecifier>) -> Seq<String> {
    let tss = ds_type_specs(dss);
    if tss.len() == 1 && ts_kind(tss[0]) == TsKind::Enum {
        tss[0]->EnumSpecifier_0.constants@
    } else {
        Seq::empty()
    }
}

/// Declares enumeration constants in order, each of type `int`; a name
/// already present as an enumeration constant in the innermost scope is
/// a redeclaration.
pub open spec fn sem_declare_enums(names: Seq<String>, st: Seq<ScopeV>) -> (
    Seq<SymbolV>,
    Result<(), ErrV>,
)
    decreases names,
{
    if names.len() == 0 {
        (Seq::empty(), Ok(()))
    } else if scope_has_enum(st.last().symbols, names.first()@) {
        (Seq::empty(), Err(ErrV::EnumRedeclaration(names.first()@)))
    } else {
        let sym = SymbolV::EnumConstant { name: names.first()@, ty: TypeV::Int };
        let (d, r) = sem_declare_enums(names.drop_first(), push_sym(st, sym));
        (seq![sym] + d, r)
    }
}

/// One init declarator: the declarator composes the declared type, an
/// initializer must match it exactly, and the name is registered in the
/// innermost scope - as a typedef alias when the declaration carries the
/// `typedef` storage class, as a variable otherwise.
pub open spec fn sem_init_declarator(
    id: InitDeclarator,
    base: TypeV,
    is_typedef: bool,
    st: Seq<ScopeV>,
) -> (Seq<SymbolV>, Result<(), ErrV>)
    decreases id,
{
    match id {
        InitDeclarator::Declared(decl) => match sem_declarator(base, decl, st) {
            Err(er) => (Seq::empty(), Err(er)),
            Ok((name, ty)) => sem_declare_name(name, ty, is_typedef, st),
        },
        InitDeclarator::Initialized(decl, init) => match sem_declarator(base, decl, st) {
            Err(er) => (Seq::empty(), Err(er)),
            Ok((name, ty)) => match sem_initializer(init, st) {
                Err(er) => (Seq::empty(), Err(er)),
                Ok(init_ty) => if ty != init_ty {
                    (Seq::empty(), Err(ErrV::TypeMismatch(ty, init_ty)))
                } else {
                    sem_declare_name(name, ty, is_typedef, st)
                },
            },
        },
    }
}

/// Registers one declared name, refusing a redeclaration within the
/// innermost scope.
pub open spec fn sem_declare_name(
    name: Seq<char>,
    ty: TypeV,
    is_typedef: bool,
    st: Seq<ScopeV>,
) -> (Seq<SymbolV>, Result<(), ErrV>) {
    let sym_ty = if is_typedef {
        TypeV::TypeDef { name: name, ty: Box::new(ty) }
    } else {
        ty
    };
    if scope_has_var(st.last().symbols, name) {
        (Seq::empty(), Err(ErrV::VariableRedeclaration(name)))
    } else {
        (seq![SymbolV::Var { name: name, ty: sym_ty }], Ok(()))
    }
}

/// The type of an initializer; brace-enclosed lists are not supported.
pub open spec fn sem_initializer(init: Initializer, st: Seq<ScopeV>) -> Result<TypeV, ErrV>
    decreases init,
{
    match init {
        Initializer::Assignment(e) => sem_assignment_expr(e, st),
        Initializer::InitializerList(_) => Err(ErrV::InvalidInitializer),
    }
}

/// Init declarators in order, first failure first.
pub open spec fn sem_init_declarators(
    ids: Seq<InitDeclarator>,
    base: TypeV,
    is_typedef: bool,
    st: Seq<ScopeV>,
) -> (Seq<SymbolV>, Result<(), ErrV>)
    decreases ids,
{
    if ids.len() == 0 {
        (Seq::empty(), Ok(()))
    } else {
        proof {
            assert(decreases_to!(ids => ids[0]));
        }
        let (d0, r0) = sem_init_declarator(ids.first(), base, is_typedef, st);
        if r0 is Err {
            (d0, r0)
        } else {
            let (d1, r1) = sem_init_declarators(
                ids.drop_first(),
                base,
                is_typedef,
                push_syms(st, d0),
            );
            (d0 + d1, r1)
        }
    }
}

/// A declaration: a lone enumeration specifier declares its constants,
/// the specifier list resolves to a base type, and each init declarator
/// registers its name.
pub open spec fn sem_declaration(d: Declaration, st: Seq<ScopeV>) -> (
    Seq<SymbolV>,
    Result<(), ErrV>,
) {
    let (de, re) = sem_declare_enums(ds_enum_constants(d.declaration_specifiers@), st);
    if re is Err {
        (de, re)
    } else {
        let st1 = push_syms(st, de);
        match sem_decl_specs_ty(d.declaration_specifiers@, st1) {
            Err(er) => (de, Err(er)),
            Ok(base) => {
                let (dv, rv) = sem_init_declarators(
                    d.init_declarators@,
                    base,
                    ds_has_typedef(d.declaration_specifiers@),
                    st1,
                );
                (de + dv, rv)
            },
        }
    }
}

/// Whether every specifier from a position on is a type specifier.
pub open spec fn all_type_specifiers_from(dss: Seq<DeclarationSpecifier>, start: int) -> bool {
    forall|i: int|
        start <= i < dss.len() ==> (#[trigger] dss[i]) matches DeclarationSpecifier::TypeSpecifier(
            t,
        )
}

/// The return base type of a function definition's specifiers: an
/// optional leading `static` or `extern`, then type specifiers only,
/// resolved through the canonical table.
pub open spec fn fd_base_ty(dss: Seq<DeclarationSpecifier>, st: Seq<ScopeV>) -> Result<
    TypeV,
    ErrV,
> {
    if dss.len() == 0 {
        Err(ErrV::InvalidDeclarationSpecifiers(dss))
    } else {
        let start: int = match dss[0] {
            DeclarationSpecifier::StorageClassSpecifier(sc) => if sc
                == StorageClassSpecifier::Static || sc == StorageClassSpecifier::Extern {
                1int
            } else {
                -1int
            },
            _ => 0int,
        };
        if start < 0 {
            Err(ErrV::InvalidDeclarationSpecifiers(dss))
        } else if !all_type_specifiers_from(dss, start) {
            Err(ErrV::InvalidDeclarationSpecifiers(dss))
        } else {
            sem_decl_specs_ty(dss, st)
        }
    }
}

/// The names and types of a parameter list, in order.
pub open spec fn sem_param_decls(ps: Seq<ParameterDeclaration>, st: Seq<ScopeV>) -> Result<
    Seq<(Seq<char>, TypeV)>,
    ErrV,
>
    decreases ps,
{
    if ps.len() == 0 {
        Ok(Seq::empty())
    } else {
        proof {
            assert(decreases_to!(ps => ps[0]));
        }
        let p = ps.first();
        match sem_decl_specs_ty(p.declaration_specifiers@, st) {
            Err(er) => Err(er),
            Ok(base) => match sem_declarator(base, p.declarator, st) {
                Err(er) => Err(er),
                Ok((name, ty)) => match sem_param_decls(ps.drop_first(), st) {
                    Err(er) => Err(er),
                    Ok(rest) => Ok(seq![(name, ty)] + rest),
                },
            },
        }
    }
}

/// The second components of a name/type list.
pub open spec fn types_of(pairs: Seq<(Seq<char>, TypeV)>) -> Seq<TypeV> {
    Seq::new(pairs.len(), |i: int| pairs[i].1)
}

/// Declares the parameters, in order, inside the function scope.
pub open spec fn sem_declare_params(pairs: Seq<(Seq<char>, TypeV)>, st: Seq<ScopeV>) -> (
    Seq<SymbolV>,
    Result<(), ErrV>,
)
    decreases pairs,
{
    if pairs.len() == 0 {
        (Seq::empty(), Ok(()))
    } else if scope_has_var(st.last().symbols, pairs.first().0) {
        (Seq::empty(), Err(ErrV::VariableRedeclaration(pairs.first().0)))
    } else {
        let sym = SymbolV::Var { name: pairs.first().0, ty: pairs.first().1 };
        let (d, r) = sem_declare_params(pairs.drop_first(), push_sym(st, sym));
        (seq![sym] + d, r)
    }
}

/// A function definition: the specifiers give the return base type, the
/// declarator must carry a name and a parameter list, the function is
/// registered in the surrounding scope, and the body runs in a function
/// scope holding the parameters.
pub open spec fn sem_function_definition(f: FunctionDefinition, st: Seq<ScopeV>) -> (
    Seq<SymbolV>,
    Result<(), ErrV>,
) {
    match fd_base_ty(f.declaration_specifiers@, st) {
        Err(er) => (Seq::empty(), Err(er)),
        Ok(base) => match f.declarator.d_declarator {
            DirectDeclarator::Function(inner, params) => match *inner {
                DirectDeclarator::Ident(name) => {
                    let ret_ty = match f.declarator.pointer {
                        Some(p) => pointer_wrap(base, p.levels as nat),
                        None => base,
                    };
                    match sem_param_decls(params@, st) {
                        Err(er) => (Seq::empty(), Err(er)),
                        Ok(pairs) => {
                            let fn_ty = TypeV::Function {
                                return_ty: Box::new(ret_ty),
                                param_tys: types_of(pairs),
                            };
                            if scope_has_var(st.last().symbols, name@) {
                                (Seq::empty(), Err(ErrV::VariableRedeclaration(name@)))
                            } else {
                                let fsym = SymbolV::Var { name: name@, ty: fn_ty };
                                let st1 = push_sym(st, fsym);
                                let st2 = st1.push(
                                    ScopeV { symbols: Seq::empty(), kind: ScopeKindV::Fn(ret_ty) },
                                );
                                let (dp, rp) = sem_declare_params(pairs, st2);
                                if rp is Err {
                                    (seq![fsym], rp)
                                } else {
                                    let (db, rb) = sem_block_items(
                                        f.body.0@,
                                        push_syms(st2, dp),
                                    );
                                    (seq![fsym], rb)
                                }
                            }
                        },
                    }
                },
                _ => (Seq::empty(), Err(ErrV::InvalidFunctionDefinition(f))),
            },
            _ => (Seq::empty(), Err(ErrV::InvalidFunctionDefinition(f))),
        },
    }
}

/// One top-level item.
pub open spec fn sem_external_declaration(ed: ExternalDeclaration, st: Seq<ScopeV>) -> (
    Seq<SymbolV>,
    Result<(), ErrV>,
) {
    match ed {
        ExternalDeclaration::FunctionDefinition(f) => sem_function_definition(f, st),
        ExternalDeclaration::Declaration(d) => sem_declaration(d, st),
    }
}

/// Top-level items in order; the first failing item aborts the whole
/// translation unit.
pub open spec fn sem_external_declarations(eds: Seq<ExternalDeclaration>, st: Seq<ScopeV>) -> (
    Seq<SymbolV>,
    Result<(), ErrV>,
)
    decreases eds,
{
    if eds.len() == 0 {
        (Seq::empty(), Ok(()))
    } else {
        proof {
            assert(decreases_to!(eds => eds[0]));
        }
        let (d0, r0) = sem_external_declaration(eds.first(), st);
        if r0 is Err {
            (d0, r0)
        } else {
            let (d1, r1) = sem_external_declarations(eds.drop_first(), push_syms(st, d0));
            (d0 + d1, r1)
        }
    }
}

/// A whole translation unit, analyzed on the given stack.
pub open spec fn sem_translation_unit(tu: TranslationUnit, st: Seq<ScopeV>) -> (
    Seq<SymbolV>,
    Result<(), ErrV>,
) {
    sem_external_declarations(tu.0@, st)
}


/// Analyzes a statement, growing the innermost scope by exactly the
/// symbols the statement declares.
pub fn analyze_stmt<'a>(s: &'a Stmt, ctx: &mut SemanticContext) -> (r: Result<(), SemanticError<'a>>)
    requires
        old(ctx)@.len() >= 1,
    ensures
        final(ctx)@ == push_syms(old(ctx)@, sem_stmt(*s, old(ctx)@).0),
        res_unit_view(r) == sem_stmt(*s, old(ctx)@).1,
    decreases *s,
{
    match s {
        Stmt::EmptyStmt => {
            proof {
                lemma_push_syms_empty(ctx@);
            }
            Ok(())
        },
        Stmt::Labeled(ls) => analyze_labeled_stmt(ls, ctx),
        Stmt::Expr(e) => {
            let r = crate::exprs::analyze_assignment_expr(e, ctx);
            proof {
                lemma_push_syms_empty(ctx@);
            }
            match r {
                Ok(_) => Ok(()),
                Err(er) => Err(er),
            }
        },
        Stmt::Compound(c) => {
            let r = analyze_compound_stmt(c, ctx);
            proof {
                lemma_push_syms_empty(ctx@);
            }
            r
        },
        Stmt::Selection(sel) => {
            let r = analyze_selection_stmt(sel, ctx);
            proof {
                lemma_push_syms_empty(ctx@);
            }
            r
        },
        Stmt::Iteration(it) => {
            let r = analyze_iteration_stmt(it, ctx);
            proof {
                lemma_push_syms_empty(ctx@);
            }
            r
        },
        Stmt::Jump(j) => {
            let r = analyze_jump_stmt(j, ctx);
            proof {
                lemma_push_syms_empty(ctx@);
            }
            r
        },
    }
}

/// Analyzes a labeled statement.
pub fn analyze_labeled_stmt<'a>(ls: &'a LabeledStmt, ctx: &mut SemanticContext) -> (r: Result<
    (),
    SemanticError<'a>,
>)
    requires
        old(ctx)@.len() >= 1,
    ensures
        final(ctx)@ == push_syms(old(ctx)@, sem_labeled_stmt(*ls, old(ctx)@).0),
        res_unit_view(r) == sem_labeled_stmt(*ls, old(ctx)@).1,
    decreases *ls,
{
    let ghost st0 = ctx@;
    match ls {
        LabeledStmt::Ident(label, inner) => {
            if !ctx.declare_label(label.clone()) {
                proof {
                    lemma_push_syms_empty(st0);
                }
                return Err(SemanticError::LabelRedeclaration(ls));
            }
            let ghost lsym = SymbolV::Label { name: label@ };
            let r = analyze_stmt(inner, ctx);
            proof {
                lemma_push_sym_is_push_syms(st0, lsym);
                lemma_push_syms_app(st0, seq![lsym], sem_stmt(**inner, push_sym(st0, lsym)).0);
            }
            r
        },
        LabeledStmt::Case(expr, inner) => {
            let swt = match ctx.curr_switch_scope() {
                Some(t) => crate::types::clone_type(t),
                None => {
                    proof {
                        lemma_push_syms_empty(st0);
                    }
                    return Err(SemanticError::CaseOutsideSwitch(ls));
                },
            };
            let et = match crate::exprs::analyze_conditional_expr(expr, ctx) {
                Ok(t) => t,
                Err(er) => {
                    proof {
                        lemma_push_syms_empty(st0);
                    }
                    return Err(er);
                },
            };
            match (&swt, &et) {
                (crate::types::Type::Int, crate::types::Type::Int)
                | (crate::types::Type::Char, crate::types::Type::Char) => analyze_stmt(
                    inner,
                    ctx,
                ),
                _ => {
                    proof {
                        lemma_push_syms_empty(st0);
                    }
                    Err(SemanticError::UnexpectedType { expected: swt, actual: et })
                },
            }
        },
        LabeledStmt::Default(inner) => {
            if ctx.in_switch() {
                analyze_stmt(inner, ctx)
            } else {
                proof {
                    lemma_push_syms_empty(st0);
                }
                Err(SemanticError::DefaultOutsideSwitch(ls))
            }
        },
    }
}

/// Analyzes a block: a fresh regular scope is opened, the items run in
/// order, and the scope is closed on every exit path.
pub fn analyze_compound_stmt<'a>(c: &'a CompoundStmt, ctx: &mut SemanticContext) -> (r: Result<
    (),
    SemanticError<'a>,
>)
    requires
        old(ctx)@.len() >= 1,
    ensures
        final(ctx)@ == old(ctx)@,
        res_unit_view(r) == sem_compound_stmt(*c, old(ctx)@),
    decreases *c,
{
    let ghost st0 = ctx@;
    ctx.push_scope(ScopeKind::Regular);
    let ghost st1 = ctx@;
    let ghost mut dacc: Seq<SymbolV> = Seq::empty();
    let items = &c.0;
    let mut i: usize = 0;
    proof {
        lemma_push_syms_empty(st1);
        assert(items@.skip(0) =~= items@);
        assert(Seq::<SymbolV>::empty() + sem_block_items(items@, st1).0 =~= sem_block_items(
            items@,
            st1,
        ).0);
    }
    while i < items.len()
        invariant
            i <= items@.len(),
            st0 == old(ctx)@,
            st0.len() >= 1,
            items@ == c.0@,
            st1 == st0.push(ScopeV { symbols: Seq::empty(), kind: ScopeKindV::Regular }),
            ctx@ == push_syms(st1, dacc),
            ctx@.len() == st1.len(),
            sem_block_items(items@, st1).0 == dacc + sem_block_items(
                items@.skip(i as int),
                ctx@,
            ).0,
            sem_block_items(items@, st1).1 == sem_block_items(items@.skip(i as int), ctx@).1,
        decreases items@.len() - i,
    {
        let ghost prev = ctx@;
        proof {
            assert(items@.skip(i as int).first() == items@[i as int]);
            assert(items@.skip(i as int).drop_first() =~= items@.skip(i as int + 1));
            assert(decreases_to!(*c => c.0));
            assert(decreases_to!(c.0 => c.0@));
            assert(decreases_to!(c.0@ => c.0@[i as int]));
        }
        let r0 = analyze_block_item(&items[i], ctx);
        let ghost d0 = sem_block_item(items@[i as int], prev).0;
        proof {
            lemma_push_syms_app(st1, dacc, d0);
        }
        if r0.is_err() {
            ctx.pop_scope();
            proof {
                assert(push_syms(st1, dacc + d0).drop_last() =~= st0);
            }
            return r0;
        }
        proof {
            dacc = dacc + d0;
        }
        i += 1;
    }
    proof {
        assert(items@.skip(items@.len() as int) =~= Seq::<BlockItem>::empty());
    }
    ctx.pop_scope();
    proof {
        assert(push_syms(st1, dacc).drop_last() =~= st0);
    }
    Ok(())
}

/// Analyzes one block item.
pub fn analyze_block_item<'a>(b: &'a BlockItem, ctx: &mut SemanticContext) -> (r: Result<
    (),
    SemanticError<'a>,
>)
    requires
        old(ctx)@.len() >= 1,
    ensures
        final(ctx)@ == push_syms(old(ctx)@, sem_block_item(*b, old(ctx)@).0),
        res_unit_view(r) == sem_block_item(*b, old(ctx)@).1,
    decreases *b,
{
    match b {
        BlockItem::Declaration(d) => analyze_declaration(d, ctx),
        BlockItem::Statement(s) => analyze_stmt(s, ctx),
    }
}

/// Analyzes `if`, `if`/`else` and `switch`; each branch runs in a scope
/// of its own and the stack is unchanged afterwards.
pub fn analyze_selection_stmt<'a>(sel: &'a SelectionStmt, ctx: &mut SemanticContext) -> (r: Result<
    (),
    SemanticError<'a>,
>)
    requires
        old(ctx)@.len() >= 1,
    ensures
        final(ctx)@ == old(ctx)@,
        res_unit_view(r) == sem_selection_stmt(*sel, old(ctx)@),
    decreases *sel,
{
    let ghost st0 = ctx@;
    match sel {
        SelectionStmt::If { test, pass } => {
            let tt = match crate::exprs::analyze_assignment_expr(test, ctx) {
                Ok(t) => t,
                Err(er) => {
                    return Err(er);
                },
            };
            match tt {
                crate::types::Type::Int => {},
                _ => {
                    return Err(SemanticError::UnexpectedType {
                        expected: crate::types::Type::Int,
                        actual: tt,
                    });
                },
            }
            ctx.push_scope(ScopeKind::Regular);
            let r = analyze_stmt(pass, ctx);
            ctx.pop_scope();
            proof {
                assert(push_syms(
                    st0.push(ScopeV { symbols: Seq::empty(), kind: ScopeKindV::Regular }),
                    sem_stmt(
                        **pass,
                        st0.push(ScopeV { symbols: Seq::empty(), kind: ScopeKindV::Regular }),
                    ).0,
                ).drop_last() =~= st0);
            }
            r
        },
        SelectionStmt::IfElse { test, pass, fail } => {
            let tt = match crate::exprs::analyze_assignment_expr(test, ctx) {
                Ok(t) => t,
                Err(er) => {
                    return Err(er);
                },
            };
            match tt {
                crate::types::Type::Int => {},
                _ => {
                    return Err(SemanticError::UnexpectedType {
                        expected: crate::types::Type::Int,
                        actual: tt,
                    });
                },
            }
            ctx.push_scope(ScopeKind::Regular);
            let rp = analyze_stmt(pass, ctx);
            ctx.pop_scope();
            proof {
                assert(push_syms(
                    st0.push(ScopeV { symbols: Seq::empty(), kind: ScopeKindV::Regular }),
                    sem_stmt(
                        **pass,
                        st0.push(ScopeV { symbols: Seq::empty(), kind: ScopeKindV::Regular }),
                    ).0,
                ).drop_last() =~= st0);
            }
            match rp {
                Err(er) => {
                    return Err(er);
                },
                Ok(_) => {},
            }
            ctx.push_scope(ScopeKind::Regular);
            let rf = analyze_stmt(fail, ctx);
            ctx.pop_scope();
            proof {
                assert(push_syms(
                    st0.push(ScopeV { symbols: Seq::empty(), kind: ScopeKindV::Regular }),
                    sem_stmt(
                        **fail,
                        st0.push(ScopeV { symbols: Seq::empty(), kind: ScopeKindV::Regular }),
                    ).0,
                ).drop_last() =~= st0);
            }
            rf
        },
        SelectionStmt::Switch { test, pass } => {
            let tt = match crate::exprs::analyze_assignment_expr(test, ctx) {
                Ok(t) => t,
                Err(er) => {
                    return Err(er);
                },
            };
            let ghost ttv = tt@;
            ctx.push_scope(ScopeKind::Switch(tt));
            let r = analyze_stmt(pass, ctx);
            ctx.pop_scope();
            proof {
                assert(push_syms(
                    st0.push(ScopeV { symbols: Seq::empty(), kind: ScopeKindV::Switch(ttv) }),
                    sem_stmt(
                        **pass,
                        st0.push(
                            ScopeV { symbols: Seq::empty(), kind: ScopeKindV::Switch(ttv) },
                        ),
                    ).0,
                ).drop_last() =~= st0);
            }
            r
        },
    }
}

/// Analyzes `while`, `do`/`while` and `for`.
pub fn analyze_iteration_stmt<'a>(it: &'a IterationStmt, ctx: &mut SemanticContext) -> (r: Result<
    (),
    SemanticError<'a>,
>)
    requires
        old(ctx)@.len() >= 1,
    ensures
        final(ctx)@ == old(ctx)@,
        res_unit_view(r) == sem_iteration_stmt(*it, old(ctx)@),
    decreases *it,
{
    let ghost st0 = ctx@;
    match it {
        IterationStmt::While { test, body } => {
            let tt = match crate::exprs::analyze_assignment_expr(test, ctx) {
                Ok(t) => t,
                Err(er) => {
                    return Err(er);
                },
            };
            match tt {
                crate::types::Type::Int => {},
                _ => {
                    return Err(SemanticError::UnexpectedType {
                        expected: crate::types::Type::Int,
                        actual: tt,
                    });
                },
            }
            ctx.push_scope(ScopeKind::Loop);
            let r = analyze_stmt(body, ctx);
            ctx.pop_scope();
            proof {
                assert(push_syms(
                    st0.push(ScopeV { symbols: Seq::empty(), kind: ScopeKindV::Loop }),
                    sem_stmt(
                        **body,
                        st0.push(ScopeV { symbols: Seq::empty(), kind: ScopeKindV::Loop }),
                    ).0,
                ).drop_last() =~= st0);
            }
            r
        },
        IterationStmt::DoWhile { test, body } => {
            ctx.push_scope(ScopeKind::Loop);
            let rb = analyze_stmt(body, ctx);
            ctx.pop_scope();
            proof {
                assert(push_syms(
                    st0.push(ScopeV { symbols: Seq::empty(), kind: ScopeKindV::Loop }),
                    sem_stmt(
                        **body,
                        st0.push(ScopeV { symbols: Seq::empty(), kind: ScopeKindV::Loop }),
                    ).0,
                ).drop_last() =~= st0);
            }
            match rb {
                Err(er) => {
                    return Err(er);
                },
                Ok(_) => {},
            }
            let tt = match crate::exprs::analyze_assignment_expr(test, ctx) {
                Ok(t) => t,
                Err(er) => {
                    return Err(er);
                },
            };
            match tt {
                crate::types::Type::Int => Ok(()),
                _ => Err(SemanticError::UnexpectedType {
                    expected: crate::types::Type::Int,
                    actual: tt,
                }),
            }
        },
        IterationStmt::For { init, test, update, body } => {
            match init {
                None => {},
                Some(e) => {
                    match crate::exprs::analyze_assignment_expr(e, ctx) {
                        Ok(_) => {},
                        Err(er) => {
                            return Err(er);
                        },
                    }
                },
            }
            match test {
                None => {},
                Some(e) => {
                    let tt = match crate::exprs::analyze_assignment_expr(e, ctx) {
                        Ok(t) => t,
                        Err(er) => {
                            return Err(er);
                        },
                    };
                    match tt {
                        crate::types::Type::Int => {},
                        _ => {
                            return Err(SemanticError::UnexpectedType {
                                expected: crate::types::Type::Int,
                                actual: tt,
                            });
                        },
                    }
                },
            }
            match update {
                None => {},
                Some(e) => {
                    match crate::exprs::analyze_assignment_expr(e, ctx) {
                        Ok(_) => {},
                        Err(er) => {
                            return Err(er);
                        },
                    }
                },
            }
            ctx.push_scope(ScopeKind::Loop);
            let r = analyze_stmt(body, ctx);
            ctx.pop_scope();
            proof {
                assert(push_syms(
                    st0.push(ScopeV { symbols: Seq::empty(), kind: ScopeKindV::Loop }),
                    sem_stmt(
                        **body,
                        st0.push(ScopeV { symbols: Seq::empty(), kind: ScopeKindV::Loop }),
                    ).0,
                ).drop_last() =~= st0);
            }
            r
        },
    }
}

/// Analyzes `goto`, `continue`, `break` and `return` against the open
/// scope chain.
pub fn analyze_jump_stmt<'a>(j: &'a JumpStmt, ctx: &SemanticContext) -> (r: Result<(), SemanticError<'a>>)
    ensures
        res_unit_view(r) == sem_jump_stmt(*j, ctx@),
    decreases *j,
{
    match j {
        JumpStmt::Goto(label) => {
            if ctx.contains_label(label) {
                Ok(())
            } else {
                Err(SemanticError::UndefinedLabel(label.clone()))
            }
        },
        JumpStmt::Continue => {
            if ctx.in_loop() {
                Ok(())
            } else {
                Err(SemanticError::IllegalJump(j))
            }
        },
        JumpStmt::Break => {
            if ctx.in_loop() || ctx.in_switch() {
                Ok(())
            } else {
                Err(SemanticError::IllegalJump(j))
            }
        },
        JumpStmt::Return(opt) => {
            let rt = match ctx.curr_fn_scope() {
                Some(t) => crate::types::clone_type(t),
                None => {
                    return Err(SemanticError::ReturnOutsideFn(j));
                },
            };
            match opt {
                None => match &rt {
                    crate::types::Type::Void => Ok(()),
                    _ => Err(SemanticError::ReturnTypeMismatch {
                        expected: rt,
                        actual: crate::types::Type::Void,
                    }),
                },
                Some(e) => {
                    let at = match crate::exprs::analyze_assignment_expr(e, ctx) {
                        Ok(t) => t,
                        Err(er) => {
                            return Err(er);
                        },
                    };
                    match &rt {
                        crate::types::Type::Void => Err(SemanticError::ReturnTypeMismatch {
                            expected: crate::types::Type::Void,
                            actual: at,
                        }),
                        _ => {
                            if crate::types::type_eq(&rt, &at) {
                                Ok(())
                            } else {
                                Err(SemanticError::ReturnTypeMismatch {
                                    expected: rt,
                                    actual: at,
                                })
                            }
                        },
                    }
                },
            }
        },
    }
}


/// The type of an initializer.
pub fn analyze_initializer<'a>(init: &'a Initializer, ctx: &SemanticContext) -> (r: Result<
    crate::types::Type,
    SemanticError<'a>,
>)
    ensures
        res_ty_view(r) == sem_initializer(*init, ctx@),
{
    match init {
        Initializer::Assignment(e) => crate::exprs::analyze_assignment_expr(e, ctx),
        Initializer::InitializerList(_) => Err(SemanticError::InvalidInitializer),
    }
}

/// Whether the declaration carries the `typedef` storage class.
pub fn has_typedef_specifier(dss: &Vec<DeclarationSpecifier>) -> (r: bool)
    ensures
        r == ds_has_typedef(dss@),
{
    let mut i: usize = 0;
    while i < dss.len()
        invariant
            i <= dss@.len(),
            forall|k: int|
                0 <= k < i ==> !((#[trigger] dss@[k]) matches DeclarationSpecifier::StorageClassSpecifier(
                    sc,
                ) && sc == StorageClassSpecifier::TypeDef),
        decreases dss@.len() - i,
    {
        match &dss[i] {
            DeclarationSpecifier::StorageClassSpecifier(StorageClassSpecifier::TypeDef) => {
                proof {
                    assert(dss@[i as int] matches DeclarationSpecifier::StorageClassSpecifier(
                        sc,
                    ) && sc == StorageClassSpecifier::TypeDef);
                }
                return true;
            },
            _ => {},
        }
        i += 1;
    }
    false
}

/// Registers one init declarator.
pub fn analyze_init_declarator<'a>(
    id: &'a InitDeclarator,
    base: &crate::types::Type,
    is_typedef: bool,
    ctx: &mut SemanticContext,
) -> (r: Result<(), SemanticError<'a>>)
    requires
        old(ctx)@.len() >= 1,
    ensures
        final(ctx)@ == push_syms(
            old(ctx)@,
            sem_init_declarator(*id, base@, is_typedef, old(ctx)@).0,
        ),
        res_unit_view(r) == sem_init_declarator(*id, base@, is_typedef, old(ctx)@).1,
{
    let ghost st0 = ctx@;
    match id {
        InitDeclarator::Declared(decl) => {
            let (name, ty) = match crate::specifiers::analyze_declarator(
                crate::types::clone_type(base),
                decl,
                ctx,
            ) {
                Ok(p) => p,
                Err(er) => {
                    proof {
                        lemma_push_syms_empty(st0);
                    }
                    return Err(er);
                },
            };
            declare_name(name, ty, is_typedef, ctx)
        },
        InitDeclarator::Initialized(decl, init) => {
            let (name, ty) = match crate::specifiers::analyze_declarator(
                crate::types::clone_type(base),
                decl,
                ctx,
            ) {
                Ok(p) => p,
                Err(er) => {
                    proof {
                        lemma_push_syms_empty(st0);
                    }
                    return Err(er);
                },
            };
            let init_ty = match analyze_initializer(init, ctx) {
                Ok(t) => t,
                Err(er) => {
                    proof {
                        lemma_push_syms_empty(st0);
                    }
                    return Err(er);
                },
            };
            if !crate::types::type_eq(&ty, &init_ty) {
                proof {
                    lemma_push_syms_empty(st0);
                }
                return Err(SemanticError::TypeMismatch(ty, init_ty));
            }
            declare_name(name, ty, is_typedef, ctx)
        },
    }
}

/// Registers a declared name as a variable, or as a typedef alias when
/// the declaration carries the `typedef` storage class.
fn declare_name<'a>(
    name: String,
    ty: crate::types::Type,
    is_typedef: bool,
    ctx: &mut SemanticContext,
) -> (r: Result<(), SemanticError<'a>>)
    requires
        old(ctx)@.len() >= 1,
    ensures
        final(ctx)@ == push_syms(
            old(ctx)@,
            sem_declare_name(name@, ty@, is_typedef, old(ctx)@).0,
        ),
        res_unit_view(r) == sem_declare_name(name@, ty@, is_typedef, old(ctx)@).1,
{
    let ghost st0 = ctx@;
    let ghost tyv = ty@;
    let sym_ty = if is_typedef {
        crate::types::Type::TypeDef { name: name.clone(), ty: Box::new(ty) }
    } else {
        ty
    };
    let ghost symv = SymbolV::Var { name: name@, ty: sym_ty@ };
    if !ctx.declare_var(name.clone(), sym_ty) {
        proof {
            lemma_push_syms_empty(st0);
        }
        return Err(SemanticError::VariableRedeclaration(name));
    }
    proof {
        lemma_push_sym_is_push_syms(st0, symv);
    }
    Ok(())
}

/// Analyzes a declaration: enumeration constants first, then the base
/// type, then each init declarator.
pub fn analyze_declaration<'a>(d: &'a Declaration, ctx: &mut SemanticContext) -> (r: Result<
    (),
    SemanticError<'a>,
>)
    requires
        old(ctx)@.len() >= 1,
    ensures
        final(ctx)@ == push_syms(old(ctx)@, sem_declaration(*d, old(ctx)@).0),
        res_unit_view(r) == sem_declaration(*d, old(ctx)@).1,
{
    let ghost st0 = ctx@;
    let dss = &d.declaration_specifiers;
    let counts = crate::specifiers::ds_counts(dss);
    proof {
        if ds_type_specs(dss@).len() == 1 {
            crate::specifiers::lemma_count_kind_singleton(ds_type_specs(dss@), TsKind::Enum);
        }
    }
    let ghost de = sem_declare_enums(ds_enum_constants(dss@), st0).0;
    if counts.n_ts == 1 && counts.n_enum == 1 {
        proof {
            crate::specifiers::lemma_first_ts_index_ds(dss@);
        }
        let mut j: usize = 0;
        let mut declared = false;
        while j < dss.len() && !declared
            invariant
                j <= dss@.len(),
                st0 == old(ctx)@,
                dss@ == d.declaration_specifiers@,
                de == sem_declare_enums(ds_enum_constants(dss@), st0).0,
                declared ==> ctx@ == push_syms(st0, de) && sem_declare_enums(
                    ds_enum_constants(dss@),
                    st0,
                ).1 is Ok,
                !declared ==> ctx@ == st0 && (forall|k: int|
                    0 <= k < j ==> !((#[trigger] dss@[k]) matches DeclarationSpecifier::TypeSpecifier(
                        t2,
                    ))),
                ds_type_specs(dss@).len() == 1,
                ts_kind(ds_type_specs(dss@)[0]) == TsKind::Enum,
                st0.len() >= 1,
            decreases dss@.len() - j,
        {
            match &dss[j] {
                DeclarationSpecifier::TypeSpecifier(t) => {
                    proof {
                        crate::specifiers::lemma_first_ts_index_ds(dss@);
                        assert(j as int == first_ts_index_ds(dss@));
                        assert(*t == ds_type_specs(dss@)[0]);
                    }
                    match t {
                        TypeSpecifier::EnumSpecifier(es) => {
                            let cs = &es.constants;
                            let ghost mut dacc: Seq<SymbolV> = Seq::empty();
                            let mut k: usize = 0;
                            proof {
                                lemma_push_syms_empty(st0);
                                assert(cs@.skip(0) =~= cs@);
                            }
                            while k < cs.len()
                                invariant
                                    k <= cs@.len(),
                                    st0 == old(ctx)@,
                                    st0.len() >= 1,
                                    ctx@ == push_syms(st0, dacc),
                                    ctx@.len() == st0.len(),
                                    dss@ == d.declaration_specifiers@,
                                    de == sem_declare_enums(ds_enum_constants(dss@), st0).0,
                                    cs@ == ds_enum_constants(dss@),
                                    sem_declare_enums(cs@, st0).0 == dacc + sem_declare_enums(
                                        cs@.skip(k as int),
                                        ctx@,
                                    ).0,
                                    sem_declare_enums(cs@, st0).1 == sem_declare_enums(
                                        cs@.skip(k as int),
                                        ctx@,
                                    ).1,
                                decreases cs@.len() - k,
                            {
                                let ghost prev = ctx@;
                                proof {
                                    assert(cs@.skip(k as int).first() == cs@[k as int]);
                                    assert(cs@.skip(k as int).drop_first() =~= cs@.skip(
                                        k as int + 1,
                                    ));
                                }
                                let ghost sym = SymbolV::EnumConstant {
                                    name: cs@[k as int]@,
                                    ty: TypeV::Int,
                                };
                                if !ctx.declare_enum_invariant(
                                    cs[k].clone(),
                                    crate::types::Type::Int,
                                ) {
                                    proof {
                                        assert(dacc + Seq::<SymbolV>::empty() =~= dacc);
                                    }
                                    return Err(SemanticError::EnumRedeclaration(cs[k].clone()));
                                }
                                proof {
                                    lemma_push_sym_is_push_syms(prev, sym);
                                    lemma_push_syms_app(st0, dacc, seq![sym]);
                                }
                                proof {
                                    dacc = dacc + seq![sym];
                                }
                                k += 1;
                            }
                            proof {
                                assert(cs@.skip(cs@.len() as int) =~= Seq::<String>::empty());
                                assert(dacc + Seq::<SymbolV>::empty() =~= dacc);
                            }
                            declared = true;
                        },
                        _ => {
                            proof {
                                assert(false);
                            }
                            return Err(SemanticError::InvalidDeclarationSpecifiers(dss));
                        },
                    }
                },
                _ => {},
            }
            j += 1;
        }
        proof {
            if !declared {
                crate::specifiers::lemma_first_ts_index_ds(dss@);
                assert(false);
            }
        }
    } else {
        proof {
            assert(ds_enum_constants(dss@) =~= Seq::<String>::empty());
            assert(de =~= Seq::<SymbolV>::empty());
            lemma_push_syms_empty(st0);
        }
    }
    let ghost st1 = push_syms(st0, de);
    let base = match crate::specifiers::analyze_declaration_specifiers(dss, ctx) {
        Ok(b) => b,
        Err(er) => {
            return Err(er);
        },
    };
    let is_typedef = has_typedef_specifier(dss);
    let ids = &d.init_declarators;
    let ghost basev = base@;
    let ghost mut dacc2: Seq<SymbolV> = Seq::empty();
    let mut i: usize = 0;
    proof {
        lemma_push_syms_empty(st1);
        assert(ids@.skip(0) =~= ids@);
    }
    while i < ids.len()
        invariant
            i <= ids@.len(),
            st0 == old(ctx)@,
            st1.len() >= 1,
            st0.len() >= 1,
            st1 == push_syms(st0, de),
            basev == base@,
            dss@ == d.declaration_specifiers@,
            de == sem_declare_enums(ds_enum_constants(dss@), st0).0,
            sem_declare_enums(ds_enum_constants(dss@), st0).1 is Ok,
            sem_decl_specs_ty(dss@, st1) == Ok::<TypeV, ErrV>(basev),
            is_typedef == ds_has_typedef(dss@),
            ids@ == d.init_declarators@,
            ctx@ == push_syms(st1, dacc2),
            ctx@.len() == st1.len(),
            sem_init_declarators(ids@, basev, is_typedef, st1).0 == dacc2
                + sem_init_declarators(ids@.skip(i as int), basev, is_typedef, ctx@).0,
            sem_init_declarators(ids@, basev, is_typedef, st1).1 == sem_init_declarators(
                ids@.skip(i as int),
                basev,
                is_typedef,
                ctx@,
            ).1,
        decreases ids@.len() - i,
    {
        let ghost prev = ctx@;
        proof {
            assert(ids@.skip(i as int).first() == ids@[i as int]);
            assert(ids@.skip(i as int).drop_first() =~= ids@.skip(i as int + 1));
        }
        let r0 = analyze_init_declarator(&ids[i], &base, is_typedef, ctx);
        let ghost d0 = sem_init_declarator(ids@[i as int], basev, is_typedef, prev).0;
        proof {
            lemma_push_syms_app(st1, dacc2, d0);
        }
        if r0.is_err() {
            proof {
                assert(dacc2 + (d0 + Seq::<SymbolV>::empty()) =~= dacc2 + d0);
                lemma_push_syms_app(st0, de, dacc2 + d0);
            }
            return r0;
        }
        proof {
            dacc2 = dacc2 + d0;
        }
        i += 1;
    }
    proof {
        assert(ids@.skip(ids@.len() as int) =~= Seq::<InitDeclarator>::empty());
        lemma_push_syms_app(st0, de, dacc2);
    }
    Ok(())
}


/// The names and types of a parameter list, stopping at the first
/// failing parameter.
pub fn analyze_param_decls<'a>(
    params: &'a Vec<ParameterDeclaration>,
    ctx: &SemanticContext,
) -> (r: Result<Vec<(String, crate::types::Type)>, SemanticError<'a>>)
    ensures
        match r {
            Ok(ps) => sem_param_decls(params@, ctx@) == Ok::<_, ErrV>(
                crate::types::seq_member_view(ps@),
            ),
            Err(e) => sem_param_decls(params@, ctx@) == Err::<Seq<(Seq<char>, TypeV)>, _>(e@),
        },
{
    let mut ps: Vec<(String, crate::types::Type)> = Vec::new();
    let mut i: usize = 0;
    proof {
        assert(params@.skip(0) =~= params@);
        crate::types::lemma_seq_member_view(ps@);
    }
    while i < params.len()
        invariant
            i <= params@.len(),
            ps@.len() == i,
            forall|rest: Seq<(Seq<char>, TypeV)>|
                sem_param_decls(params@.skip(i as int), ctx@) == Ok::<_, ErrV>(rest)
                    ==> sem_param_decls(params@, ctx@) == Ok::<_, ErrV>(
                    crate::types::seq_member_view(ps@) + rest,
                ),
            forall|e: ErrV|
                sem_param_decls(params@.skip(i as int), ctx@) == Err::<
                    Seq<(Seq<char>, TypeV)>,
                    _,
                >(e) ==> sem_param_decls(params@, ctx@) == Err::<Seq<(Seq<char>, TypeV)>, _>(e),
        decreases params@.len() - i,
    {
        proof {
            assert(params@.skip(i as int).first() == params@[i as int]);
            assert(params@.skip(i as int).drop_first() =~= params@.skip(i as int + 1));
        }
        let p = &params[i];
        let base = match crate::specifiers::analyze_declaration_specifiers(
            &p.declaration_specifiers,
            ctx,
        ) {
            Ok(b) => b,
            Err(e) => {
                return Err(e);
            },
        };
        let (name, ty) = match crate::specifiers::analyze_declarator(base, &p.declarator, ctx) {
            Ok(pair) => pair,
            Err(e) => {
                return Err(e);
            },
        };
        proof {
            crate::types::lemma_seq_member_view(ps@);
            crate::types::lemma_seq_member_view(ps@.push((name, ty)));
            assert(ps@.push((name, ty)).drop_last() =~= ps@);
            assert(forall|rest: Seq<(Seq<char>, TypeV)>|
                crate::types::seq_member_view(ps@) + (seq![(name@, ty@)] + rest)
                    =~= crate::types::seq_member_view(ps@.push((name, ty))) + rest);
        }
        ps.push((name, ty));
        i += 1;
    }
    proof {
        assert(params@.skip(params@.len() as int) =~= Seq::<ParameterDeclaration>::empty());
        assert(crate::types::seq_member_view(ps@) + Seq::<(Seq<char>, TypeV)>::empty()
            =~= crate::types::seq_member_view(ps@));
    }
    Ok(ps)
}

/// Analyzes a function definition: the return type, the declarator's
/// name and parameters, the function's registration, and the body inside
/// a function scope that holds the parameters.
pub fn analyze_function_definition<'a>(f: &'a FunctionDefinition, ctx: &mut SemanticContext) -> (r:
    Result<(), SemanticError<'a>>)
    requires
        old(ctx)@.len() >= 1,
    ensures
        final(ctx)@ == push_syms(old(ctx)@, sem_function_definition(*f, old(ctx)@).0),
        res_unit_view(r) == sem_function_definition(*f, old(ctx)@).1,
{
    let ghost st0 = ctx@;
    let dss = &f.declaration_specifiers;
    if dss.len() == 0 {
        proof {
            lemma_push_syms_empty(st0);
        }
        return Err(SemanticError::InvalidDeclarationSpecifiers(dss));
    }
    let start: usize = match &dss[0] {
        DeclarationSpecifier::StorageClassSpecifier(sc) => match sc {
            StorageClassSpecifier::Static | StorageClassSpecifier::Extern => 1,
            _ => {
                proof {
                    lemma_push_syms_empty(st0);
                }
                return Err(SemanticError::InvalidDeclarationSpecifiers(dss));
            },
        },
        _ => 0,
    };
    let mut i: usize = start;
    while i < dss.len()
        invariant
            start <= i <= dss@.len(),
            st0 == old(ctx)@,
            st0.len() >= 1,
            ctx@ == st0,
            dss@ == f.declaration_specifiers@,
            dss@.len() >= 1,
            start <= 1,
            start == 1 ==> (dss@[0] matches DeclarationSpecifier::StorageClassSpecifier(sc) && (
            sc == StorageClassSpecifier::Static || sc == StorageClassSpecifier::Extern)),
            start == 0 ==> !(dss@[0] is StorageClassSpecifier),
            forall|k: int|
                start <= k < i ==> (#[trigger] dss@[k]) matches DeclarationSpecifier::TypeSpecifier(
                    t,
                ),
        decreases dss@.len() - i,
    {
        match &dss[i] {
            DeclarationSpecifier::TypeSpecifier(_) => {},
            _ => {
                proof {
                    lemma_push_syms_empty(st0);
                }
                return Err(SemanticError::InvalidDeclarationSpecifiers(dss));
            },
        }
        i += 1;
    }
    let base = match crate::specifiers::analyze_declaration_specifiers(dss, ctx) {
        Ok(b) => b,
        Err(er) => {
            proof {
                lemma_push_syms_empty(st0);
            }
            return Err(er);
        },
    };
    match &f.declarator.d_declarator {
        DirectDeclarator::Function(inner, params) => match &**inner {
            DirectDeclarator::Ident(name) => {
                let ret_ty = match &f.declarator.pointer {
                    Some(p) => crate::specifiers::wrap_pointer(base, p.levels),
                    None => base,
                };
                let pairs = match analyze_param_decls(params, ctx) {
                    Ok(ps) => ps,
                    Err(er) => {
                        proof {
                            lemma_push_syms_empty(st0);
                        }
                        return Err(er);
                    },
                };
                let ghost pairs_v = crate::types::seq_member_view(pairs@);
                let mut tys: Vec<crate::types::Type> = Vec::new();
                let mut k: usize = 0;
                proof {
                    crate::types::lemma_seq_type_view(tys@);
                }
                while k < pairs.len()
                    invariant
                        k <= pairs@.len(),
                        tys@.len() == k,
                        pairs_v == crate::types::seq_member_view(pairs@),
                        forall|j: int|
                            0 <= j < k ==> crate::types::type_view(tys@[j]) == pairs_v[j].1,
                    decreases pairs@.len() - k,
                {
                    proof {
                        crate::types::lemma_seq_member_view(pairs@);
                    }
                    tys.push(crate::types::clone_type(&pairs[k].1));
                    k += 1;
                }
                proof {
                    crate::types::lemma_seq_type_view(tys@);
                    crate::types::lemma_seq_member_view(pairs@);
                    assert(crate::types::seq_type_view(tys@) =~= types_of(pairs_v));
                }
                let fn_ty = crate::types::Type::Function {
                    return_ty: Box::new(crate::types::clone_type(&ret_ty)),
                    param_tys: tys,
                };
                let ghost fn_ty_v = TypeV::Function {
                    return_ty: Box::new(ret_ty@),
                    param_tys: types_of(pairs_v),
                };
                proof {
                    assert(fn_ty@ == fn_ty_v);
                }
                if !ctx.declare_var(name.clone(), fn_ty) {
                    proof {
                        lemma_push_syms_empty(st0);
                    }
                    return Err(SemanticError::VariableRedeclaration(name.clone()));
                }
                let ghost fsym = SymbolV::Var { name: name@, ty: fn_ty_v };
                let ghost st1 = ctx@;
                let ghost retv = ret_ty@;
                ctx.push_scope(ScopeKind::Fn(ret_ty));
                let ghost st2 = ctx@;
                let ghost mut dacc: Seq<SymbolV> = Seq::empty();
                let mut k2: usize = 0;
                proof {
                    lemma_push_syms_empty(st2);
                    assert(pairs_v.skip(0) =~= pairs_v);
                }
                while k2 < pairs.len()
                    invariant
                        k2 <= pairs@.len(),
                        st0 == old(ctx)@,
                        st0.len() >= 1,
                        pairs_v == crate::types::seq_member_view(pairs@),
                        pairs_v.len() == pairs@.len(),
                        st1 == push_sym(st0, fsym),
                        st2 == st1.push(
                            ScopeV { symbols: Seq::empty(), kind: ScopeKindV::Fn(retv) },
                        ),
                        sem_function_definition(*f, st0).0 == seq![fsym],
                        sem_declare_params(pairs_v, st2).1 is Err
                            ==> sem_function_definition(*f, st0).1 == sem_declare_params(
                            pairs_v,
                            st2,
                        ).1,
                        sem_declare_params(pairs_v, st2).1 is Ok
                            ==> sem_function_definition(*f, st0).1 == sem_block_items(
                            f.body.0@,
                            push_syms(st2, sem_declare_params(pairs_v, st2).0),
                        ).1,
                        ctx@ == push_syms(st2, dacc),
                        ctx@.len() == st2.len(),
                        sem_declare_params(pairs_v, st2).0 == dacc + sem_declare_params(
                            pairs_v.skip(k2 as int),
                            ctx@,
                        ).0,
                        sem_declare_params(pairs_v, st2).1 == sem_declare_params(
                            pairs_v.skip(k2 as int),
                            ctx@,
                        ).1,
                    decreases pairs@.len() - k2,
                {
                    let ghost prev = ctx@;
                    proof {
                        crate::types::lemma_seq_member_view(pairs@);
                        assert(pairs_v.skip(k2 as int).first() == pairs_v[k2 as int]);
                        assert(pairs_v.skip(k2 as int).drop_first() =~= pairs_v.skip(
                            k2 as int + 1,
                        ));
                    }
                    let ghost sym = SymbolV::Var {
                        name: pairs_v[k2 as int].0,
                        ty: pairs_v[k2 as int].1,
                    };
                    if !ctx.declare_var(
                        pairs[k2].0.clone(),
                        crate::types::clone_type(&pairs[k2].1),
                    ) {
                        proof {
                            assert(dacc + Seq::<SymbolV>::empty() =~= dacc);
                            assert(push_syms(st2, dacc).drop_last() =~= st1);
                            lemma_push_sym_is_push_syms(st0, fsym);
                        }
                        ctx.pop_scope();
                        return Err(SemanticError::VariableRedeclaration(pairs[k2].0.clone()));
                    }
                    proof {
                        lemma_push_sym_is_push_syms(prev, sym);
                        lemma_push_syms_app(st2, dacc, seq![sym]);
                    }
                    proof {
                        dacc = dacc + seq![sym];
                    }
                    k2 += 1;
                }
                proof {
                    assert(pairs_v.skip(pairs_v.len() as int) =~= Seq::<
                        (Seq<char>, TypeV),
                    >::empty());
                    assert(dacc + Seq::<SymbolV>::empty() =~= dacc);
                }
                let ghost st3 = ctx@;
                let ghost dp = dacc;
                let items = &f.body.0;
                let ghost mut bacc: Seq<SymbolV> = Seq::empty();
                let mut bi: usize = 0;
                proof {
                    lemma_push_syms_empty(st3);
                    assert(items@.skip(0) =~= items@);
                    assert(Seq::<SymbolV>::empty() + sem_block_items(items@, st3).0
                        =~= sem_block_items(items@, st3).0);
                }
                while bi < items.len()
                    invariant
                        bi <= items@.len(),
                        st0 == old(ctx)@,
                        st0.len() >= 1,
                        items@ == f.body.0@,
                        pairs_v == crate::types::seq_member_view(pairs@),
                        st1 == push_sym(st0, fsym),
                        st2 == st1.push(
                            ScopeV { symbols: Seq::empty(), kind: ScopeKindV::Fn(retv) },
                        ),
                        st3 == push_syms(st2, dp),
                        dp == sem_declare_params(pairs_v, st2).0,
                        sem_declare_params(pairs_v, st2).1 is Ok,
                        sem_function_definition(*f, st0).0 == seq![fsym],
                        sem_function_definition(*f, st0).1 == sem_block_items(items@, st3).1,
                        ctx@ == push_syms(st3, bacc),
                        ctx@.len() == st3.len(),
                        sem_block_items(items@, st3).0 == bacc + sem_block_items(
                            items@.skip(bi as int),
                            ctx@,
                        ).0,
                        sem_block_items(items@, st3).1 == sem_block_items(
                            items@.skip(bi as int),
                            ctx@,
                        ).1,
                    decreases items@.len() - bi,
                {
                    let ghost prev = ctx@;
                    proof {
                        assert(items@.skip(bi as int).first() == items@[bi as int]);
                        assert(items@.skip(bi as int).drop_first() =~= items@.skip(
                            bi as int + 1,
                        ));
                    }
                    let r0 = analyze_block_item(&items[bi], ctx);
                    let ghost d0 = sem_block_item(items@[bi as int], prev).0;
                    proof {
                        lemma_push_syms_app(st3, bacc, d0);
                    }
                    if r0.is_err() {
                        proof {
                            assert(push_syms(st3, bacc + d0).drop_last() =~= st1);
                            lemma_push_sym_is_push_syms(st0, fsym);
                        }
                        ctx.pop_scope();
                        return r0;
                    }
                    proof {
                        bacc = bacc + d0;
                    }
                    bi += 1;
                }
                proof {
                    assert(items@.skip(items@.len() as int) =~= Seq::<BlockItem>::empty());
                    assert(push_syms(st3, bacc).drop_last() =~= st1);
                    lemma_push_sym_is_push_syms(st0, fsym);
                }
                ctx.pop_scope();
                Ok(())
            },
            _ => {
                proof {
                    lemma_push_syms_empty(st0);
                }
                Err(SemanticError::InvalidFunctionDefinition(f))
            },
        },
        _ => {
            proof {
                lemma_push_syms_empty(st0);
            }
            Err(SemanticError::InvalidFunctionDefinition(f))
        },
    }
}

/// Analyzes one top-level item.
pub fn analyze_external_declaration<'a>(ed: &'a ExternalDeclaration, ctx: &mut SemanticContext) -> (r:
    Result<(), SemanticError<'a>>)
    requires
        old(ctx)@.len() >= 1,
    ensures
        final(ctx)@ == push_syms(old(ctx)@, sem_external_declaration(*ed, old(ctx)@).0),
        res_unit_view(r) == sem_external_declaration(*ed, old(ctx)@).1,
{
    match ed {
        ExternalDeclaration::FunctionDefinition(f) => analyze_function_definition(f, ctx),
        ExternalDeclaration::Declaration(d) => analyze_declaration(d, ctx),
    }
}

/// Analyzes a whole translation unit on the given stack, aborting at the
/// first failing top-level item.
pub fn analyze_translation_unit<'a>(tu: &'a TranslationUnit, ctx: &mut SemanticContext) -> (r: Result<
    (),
    SemanticError<'a>,
>)
    requires
        old(ctx)@.len() >= 1,
    ensures
        final(ctx)@ == push_syms(old(ctx)@, sem_translation_unit(*tu, old(ctx)@).0),
        res_unit_view(r) == sem_translation_unit(*tu, old(ctx)@).1,
{
    let ghost st0 = ctx@;
    let eds = &tu.0;
    let ghost mut dacc: Seq<SymbolV> = Seq::empty();
    let mut i: usize = 0;
    proof {
        lemma_push_syms_empty(st0);
        assert(eds@.skip(0) =~= eds@);
        assert(Seq::<SymbolV>::empty() + sem_external_declarations(eds@, st0).0
            =~= sem_external_declarations(eds@, st0).0);
    }
    while i < eds.len()
        invariant
            i <= eds@.len(),
            st0 == old(ctx)@,
            st0.len() >= 1,
            eds@ == tu.0@,
            ctx@ == push_syms(st0, dacc),
            ctx@.len() == st0.len(),
            sem_external_declarations(eds@, st0).0 == dacc + sem_external_declarations(
                eds@.skip(i as int),
                ctx@,
            ).0,
            sem_external_declarations(eds@, st0).1 == sem_external_declarations(
                eds@.skip(i as int),
                ctx@,
            ).1,
        decreases eds@.len() - i,
    {
        let ghost prev = ctx@;
        proof {
            assert(eds@.skip(i as int).first() == eds@[i as int]);
            assert(eds@.skip(i as int).drop_first() =~= eds@.skip(i as int + 1));
        }
        let r0 = analyze_external_declaration(&eds[i], ctx);
        let ghost d0 = sem_external_declaration(eds@[i as int], prev).0;
        proof {
            lemma_push_syms_app(st0, dacc, d0);
        }
        if r0.is_err() {
            proof {
                assert(dacc + (d0 + Seq::<SymbolV>::empty()) =~= dacc + d0);
            }
            return r0;
        }
        proof {
            dacc = dacc + d0;
        }
        i += 1;
    }
    proof {
        assert(eds@.skip(eds@.len() as int) =~= Seq::<ExternalDeclaration>::empty());
    }
    Ok(())
}

/// Runs one whole analysis pass over a translation unit, on a fresh
/// scope stack.
pub fn analyze_program<'a>(tu: &'a TranslationUnit) -> (r: Result<(), SemanticError<'a>>)
    ensures
        res_unit_view(r) == sem_translation_unit(*tu, crate::scope::init_stack()).1,
{
    let mut ctx = SemanticContext::new();
    analyze_translation_unit(tu, &mut ctx)
}

} // verus!
