//! The declaration-specifier resolver: an unordered sequence of type
//! keywords is canonicalized and matched against the finite table of legal
//! C base-type combinations.
//!
//! Canonicalization here counts how often each keyword occurs; two
//! sequences sort to the same shape exactly when they hold the same
//! keywords the same number of times, so the count vector and the sorted
//! sequence identify the same table row.

use vstd::prelude::*;

use crate::ast::{
    AbstractDeclarator, DeclarationSpecifier, Declarator, DirectAbstractDeclarator,
    DirectDeclarator, ParameterDeclaration, SpecifierQualifier, StorageClassSpecifier,
    StructMember, StructOrUnionSpecifier, TypeName, TypeSpecifier,
};
use crate::error::{res_ty_view, ErrV, SemanticError};
use crate::scope::{stack_find_var, ScopeV, SemanticContext};
use crate::types::{
    clone_type, lemma_seq_member_view, lemma_seq_type_view, seq_member_view, seq_type_view,
    type_view, Type, TypeV,
};

verus! {

/// The canonical rank classes of a type specifier.
pub ghost enum TsKind {
    Void,
    Signed,
    UnSigned,
    Short,
    Long,
    Int,
    Char,
    Float,
    Double,
    Struct,
    Enum,
    TypeDefName,
}

/// The rank class of one specifier.
pub open spec fn ts_kind(t: TypeSpecifier) -> TsKind {
    match t {
        TypeSpecifier::Void => TsKind::Void,
        TypeSpecifier::Signed => TsKind::Signed,
        TypeSpecifier::UnSigned => TsKind::UnSigned,
        TypeSpecifier::Short => TsKind::Short,
        TypeSpecifier::Long => TsKind::Long,
        TypeSpecifier::Int => TsKind::Int,
        TypeSpecifier::Char => TsKind::Char,
        TypeSpecifier::Float => TsKind::Float,
        TypeSpecifier::Double => TsKind::Double,
        TypeSpecifier::StructOrUnionSpecifier(_) => TsKind::Struct,
        TypeSpecifier::EnumSpecifier(_) => TsKind::Enum,
        TypeSpecifier::TypeDefName(_) => TsKind::TypeDefName,
    }
}

/// How many specifiers of one rank class a sequence holds.
pub open spec fn count_kind(s: Seq<TypeSpecifier>, k: TsKind) -> nat
    decreases s,
{
    if s.len() == 0 {
        0
    } else {
        count_kind(s.drop_last(), k) + if ts_kind(s.last()) == k {
            1nat
        } else {
            0nat
        }
    }
}

/// A rank-class count never exceeds the sequence length.
pub proof fn lemma_count_kind_le(s: Seq<TypeSpecifier>, k: TsKind)
    ensures
        count_kind(s, k) <= s.len(),
    decreases s,
{
    if s.len() > 0 {
        lemma_count_kind_le(s.drop_last(), k);
    }
}

/// The type specifiers of a specifier-qualifier list, in order.
pub open spec fn sq_type_specs(s: Seq<SpecifierQualifier>) -> Seq<TypeSpecifier>
    decreases s,
{
    if s.len() == 0 {
        Seq::empty()
    } else {
        let rest = sq_type_specs(s.drop_last());
        if s.last() matches SpecifierQualifier::TypeSpecifier(t) {
            rest.push(s.last()->TypeSpecifier_0)
        } else {
            rest
        }
    }
}

/// The type specifiers of a declaration-specifier list, in order.
pub open spec fn ds_type_specs(s: Seq<DeclarationSpecifier>) -> Seq<TypeSpecifier>
    decreases s,
{
    if s.len() == 0 {
        Seq::empty()
    } else {
        let rest = ds_type_specs(s.drop_last());
        if s.last() matches DeclarationSpecifier::TypeSpecifier(t) {
            rest.push(s.last()->TypeSpecifier_0)
        } else {
            rest
        }
    }
}

/// Whether a declaration-specifier list holds the `typedef` storage class.
pub open spec fn ds_has_typedef(s: Seq<DeclarationSpecifier>) -> bool {
    exists|i: int|
        0 <= i < s.len() && ((#[trigger] s[i]) matches DeclarationSpecifier::StorageClassSpecifier(
            sc,
        ) && sc == StorageClassSpecifier::TypeDef)
}

/// The fixed table of legal keyword combinations, read off the count
/// vector.  Only pure keyword rows are decided here; a lone
/// struct/union, enum or typedef-name specifier is delegated by the
/// caller.  `None` means: no legal combination.
pub open spec fn table_from_counts(
    n_void: nat,
    n_signed: nat,
    n_unsigned: nat,
    n_short: nat,
    n_long: nat,
    n_int: nat,
    n_char: nat,
    n_float: nat,
    n_double: nat,
    n_other: nat,
    total: nat,
) -> Option<TypeV> {
    if n_other != 0 {
        None
    } else if n_void == 1 && total == 1 {
        Some(TypeV::Void)
    } else if n_char == 1 && n_signed == 0 && n_unsigned == 0 && total == 1 {
        Some(TypeV::Char)
    } else if n_char == 1 && n_signed == 1 && total == 2 {
        Some(TypeV::SignedChar)
    } else if n_char == 1 && n_unsigned == 1 && total == 2 {
        Some(TypeV::UnSignedChar)
    } else if n_short == 1 && n_unsigned == 0 && n_long == 0 && n_char == 0 && n_void == 0
        && n_float == 0 && n_double == 0 && n_signed <= 1 && n_int <= 1 && total == 1
        + n_signed + n_int {
        Some(TypeV::Short)
    } else if n_short == 1 && n_unsigned == 1 && n_signed == 0 && n_long == 0 && n_char == 0
        && n_void == 0 && n_float == 0 && n_double == 0 && n_int <= 1 && total == 2 + n_int {
        Some(TypeV::UnSignedShort)
    } else if n_void == 0 && n_unsigned == 0 && n_short == 0 && n_long == 0 && n_char == 0
        && n_float == 0 && n_double == 0 && n_signed <= 1 && n_int <= 1 && n_signed + n_int >= 1
        && total == n_signed + n_int {
        Some(TypeV::Int)
    } else if n_unsigned == 1 && n_void == 0 && n_signed == 0 && n_short == 0 && n_long == 0
        && n_char == 0 && n_float == 0 && n_double == 0 && n_int <= 1 && total == 1 + n_int {
        Some(TypeV::UnSigned)
    } else if n_long == 1 && n_void == 0 && n_unsigned == 0 && n_short == 0 && n_char == 0
        && n_float == 0 && n_double == 0 && n_signed <= 1 && n_int <= 1 && total == 1
        + n_signed + n_int {
        Some(TypeV::Long)
    } else if n_long == 1 && n_unsigned == 1 && n_void == 0 && n_signed == 0 && n_short == 0
        && n_char == 0 && n_float == 0 && n_double == 0 && n_int <= 1 && total == 2 + n_int {
        Some(TypeV::UnSignedLong)
    } else if n_long == 2 && n_void == 0 && n_unsigned == 0 && n_short == 0 && n_char == 0
        && n_float == 0 && n_double == 0 && n_signed <= 1 && n_int <= 1 && total == 2
        + n_signed + n_int {
        Some(TypeV::LongLong)
    } else if n_long == 2 && n_unsigned == 1 && n_void == 0 && n_signed == 0 && n_short == 0
        && n_char == 0 && n_float == 0 && n_double == 0 && n_int <= 1 && total == 3 + n_int {
        Some(TypeV::UnSignedLongLong)
    } else if n_float == 1 && total == 1 {
        Some(TypeV::Float)
    } else if n_double == 1 && n_long == 0 && total == 1 {
        Some(TypeV::Double)
    } else if n_double == 1 && n_long == 1 && total == 2 {
        Some(TypeV::LongDouble)
    } else {
        None
    }
}


/// The table applied to a specifier sequence.
pub open spec fn table_lookup(tss: Seq<TypeSpecifier>) -> Option<TypeV> {
    table_from_counts(
        count_kind(tss, TsKind::Void),
        count_kind(tss, TsKind::Signed),
        count_kind(tss, TsKind::UnSigned),
        count_kind(tss, TsKind::Short),
        count_kind(tss, TsKind::Long),
        count_kind(tss, TsKind::Int),
        count_kind(tss, TsKind::Char),
        count_kind(tss, TsKind::Float),
        count_kind(tss, TsKind::Double),
        count_kind(tss, TsKind::Struct) + count_kind(tss, TsKind::Enum) + count_kind(
            tss,
            TsKind::TypeDefName,
        ),
        tss.len(),
    )
}

/// Resolution of a typedef name: the name resolves, innermost-first, to
/// a symbol registered with a typedef type, or to nothing.
pub open spec fn sem_typedef_lookup(name: Seq<char>, st: Seq<ScopeV>) -> Option<TypeV> {
    match stack_find_var(st, name) {
        Some(t) => if t is TypeDef {
            Some(t)
        } else {
            None
        },
        None => None,
    }
}

/// Splitting a specifier-qualifier prefix off distributes over
/// concatenation.
pub proof fn lemma_sq_type_specs_concat(a: Seq<SpecifierQualifier>, b: Seq<SpecifierQualifier>)
    ensures
        sq_type_specs(a + b) == sq_type_specs(a) + sq_type_specs(b),
    decreases b,
{
    if b.len() == 0 {
        assert(a + b =~= a);
        assert(sq_type_specs(a) + sq_type_specs(b) =~= sq_type_specs(a));
    } else {
        lemma_sq_type_specs_concat(a, b.drop_last());
        assert((a + b).drop_last() =~= a + b.drop_last());
        assert((a + b).last() == b.last());
        if b.last() matches SpecifierQualifier::TypeSpecifier(t) {
            assert(sq_type_specs(a) + sq_type_specs(b) =~= (sq_type_specs(a) + sq_type_specs(
                b.drop_last(),
            )).push(b.last()->TypeSpecifier_0));
        } else {
            assert(sq_type_specs(b) == sq_type_specs(b.drop_last()));
        }
    }
}

/// The same, for declaration specifiers.
pub proof fn lemma_ds_type_specs_concat(a: Seq<DeclarationSpecifier>, b: Seq<DeclarationSpecifier>)
    ensures
        ds_type_specs(a + b) == ds_type_specs(a) + ds_type_specs(b),
    decreases b,
{
    if b.len() == 0 {
        assert(a + b =~= a);
        assert(ds_type_specs(a) + ds_type_specs(b) =~= ds_type_specs(a));
    } else {
        lemma_ds_type_specs_concat(a, b.drop_last());
        assert((a + b).drop_last() =~= a + b.drop_last());
        assert((a + b).last() == b.last());
        if b.last() matches DeclarationSpecifier::TypeSpecifier(t) {
            assert(ds_type_specs(a) + ds_type_specs(b) =~= (ds_type_specs(a) + ds_type_specs(
                b.drop_last(),
            )).push(b.last()->TypeSpecifier_0));
        } else {
            assert(ds_type_specs(b) == ds_type_specs(b.drop_last()));
        }
    }
}


/// Extraction never lengthens the list.
pub proof fn lemma_sq_type_specs_len(s: Seq<SpecifierQualifier>)
    ensures
        sq_type_specs(s).len() <= s.len(),
    decreases s,
{
    if s.len() > 0 {
        lemma_sq_type_specs_len(s.drop_last());
    }
}

/// Extraction never lengthens the list.
pub proof fn lemma_ds_type_specs_len(s: Seq<DeclarationSpecifier>)
    ensures
        ds_type_specs(s).len() <= s.len(),
    decreases s,
{
    if s.len() > 0 {
        lemma_ds_type_specs_len(s.drop_last());
    }
}

/// The index of the first type specifier in a specifier-qualifier list;
/// the list length if there is none.
pub open spec fn first_ts_index_sq(s: Seq<SpecifierQualifier>) -> int
    decreases s,
{
    if s.len() == 0 {
        0
    } else if s.first() matches SpecifierQualifier::TypeSpecifier(t) {
        0
    } else {
        1 + first_ts_index_sq(s.drop_first())
    }
}

/// Where the list holds a type specifier at all, the first one is at
/// `first_ts_index_sq`, everything before it is a qualifier, and its
/// payload heads the extracted sequence.
pub proof fn lemma_first_ts_index_sq(s: Seq<SpecifierQualifier>)
    requires
        sq_type_specs(s).len() >= 1,
    ensures
        0 <= first_ts_index_sq(s) < s.len(),
        s[first_ts_index_sq(s)] matches SpecifierQualifier::TypeSpecifier(t) && t == sq_type_specs(
            s,
        )[0],
        forall|k: int|
            0 <= k < first_ts_index_sq(s) ==> !((#[trigger] s[k]) matches SpecifierQualifier::TypeSpecifier(t2)),
    decreases s,
{
    assert(s =~= seq![s.first()] + s.drop_first());
    lemma_sq_type_specs_concat(seq![s.first()], s.drop_first());
    assert(seq![s.first()].drop_last() =~= Seq::<SpecifierQualifier>::empty());
    assert(sq_type_specs(Seq::<SpecifierQualifier>::empty()) =~= Seq::<TypeSpecifier>::empty());
    if let SpecifierQualifier::TypeSpecifier(t) = s.first() {
        assert(sq_type_specs(seq![s.first()]) =~= seq![t]);
        assert(sq_type_specs(s)[0] == t);
    } else {
        assert(sq_type_specs(seq![s.first()]) =~= Seq::<TypeSpecifier>::empty());
        assert(sq_type_specs(s) == sq_type_specs(s.drop_first()));
        lemma_first_ts_index_sq(s.drop_first());
        assert(forall|k: int|
            1 <= k < first_ts_index_sq(s) ==> s[k] == (#[trigger] s.drop_first()[k - 1]));
    }
}

/// The index of the first type specifier in a declaration-specifier list.
pub open spec fn first_ts_index_ds(s: Seq<DeclarationSpecifier>) -> int
    decreases s,
{
    if s.len() == 0 {
        0
    } else if s.first() matches DeclarationSpecifier::TypeSpecifier(t) {
        0
    } else {
        1 + first_ts_index_ds(s.drop_first())
    }
}

/// The declaration-specifier counterpart of `lemma_first_ts_index_sq`.
pub proof fn lemma_first_ts_index_ds(s: Seq<DeclarationSpecifier>)
    requires
        ds_type_specs(s).len() >= 1,
    ensures
        0 <= first_ts_index_ds(s) < s.len(),
        s[first_ts_index_ds(s)] matches DeclarationSpecifier::TypeSpecifier(t) && t
            == ds_type_specs(s)[0],
        forall|k: int|
            0 <= k < first_ts_index_ds(s) ==> !((#[trigger] s[k]) matches DeclarationSpecifier::TypeSpecifier(t2)),
    decreases s,
{
    assert(s =~= seq![s.first()] + s.drop_first());
    lemma_ds_type_specs_concat(seq![s.first()], s.drop_first());
    assert(seq![s.first()].drop_last() =~= Seq::<DeclarationSpecifier>::empty());
    assert(ds_type_specs(Seq::<DeclarationSpecifier>::empty()) =~= Seq::<TypeSpecifier>::empty());
    if let DeclarationSpecifier::TypeSpecifier(t) = s.first() {
        assert(ds_type_specs(seq![s.first()]) =~= seq![t]);
        assert(ds_type_specs(s)[0] == t);
    } else {
        assert(ds_type_specs(seq![s.first()]) =~= Seq::<TypeSpecifier>::empty());
        assert(ds_type_specs(s) == ds_type_specs(s.drop_first()));
        lemma_first_ts_index_ds(s.drop_first());
        assert(forall|k: int|
            1 <= k < first_ts_index_ds(s) ==> s[k] == (#[trigger] s.drop_first()[k - 1]));
    }
}

/// The base type wrapped in `n` levels of pointer.
pub open spec fn pointer_wrap(t: TypeV, n: nat) -> TypeV
    decreases n,
{
    if n == 0 {
        t
    } else {
        TypeV::Pointer(Box::new(pointer_wrap(t, (n - 1) as nat)))
    }
}

/// The type a specifier-qualifier list denotes: the keyword table, or a
/// lone struct/union, enum or typedef-name specifier.  Read-only: in a
/// type-name context an enumeration specifier contributes its
/// representation type without declaring its constants.
pub open spec fn sem_specifier_qualifiers(sqs: Seq<SpecifierQualifier>, st: Seq<ScopeV>) -> Result<
    TypeV,
    ErrV,
>
    decreases sqs,
{
    let tss = sq_type_specs(sqs);
    if tss.len() == 1 && ts_kind(tss[0]) == TsKind::Struct {
        let idx = first_ts_index_sq(sqs);
        proof {
            lemma_first_ts_index_sq(sqs);
            assert(decreases_to!(sqs => sqs[idx]));
        }
        sem_struct_specifier(sqs[idx]->TypeSpecifier_0->StructOrUnionSpecifier_0, st)
    } else if tss.len() == 1 && ts_kind(tss[0]) == TsKind::Enum {
        Ok(TypeV::Int)
    } else if tss.len() == 1 && ts_kind(tss[0]) == TsKind::TypeDefName {
        match sem_typedef_lookup(tss[0]->TypeDefName_0@, st) {
            Some(t) => Ok(t),
            None => Err(ErrV::InvalidSpecifierQualifiers(sqs)),
        }
    } else {
        match table_lookup(tss) {
            Some(t) => Ok(t),
            None => Err(ErrV::InvalidSpecifierQualifiers(sqs)),
        }
    }
}

/// The struct or union type a specifier denotes: its name plus its
/// members, each resolved in order.
pub open spec fn sem_struct_specifier(
    sou: crate::ast::StructOrUnionSpecifier,
    st: Seq<ScopeV>,
) -> Result<TypeV, ErrV>
    decreases sou,
{
    proof {
        assert(decreases_to!(sou => sou.members));
    }
    match sem_struct_members(sou.members@, st) {
        Ok(ms) => Ok(TypeV::Struct { name: sou.name@, members: ms }),
        Err(e) => Err(e),
    }
}

/// The resolved member list of a struct specifier, first failure first.
pub open spec fn sem_struct_members(
    ms: Seq<crate::ast::StructMember>,
    st: Seq<ScopeV>,
) -> Result<Seq<(Seq<char>, TypeV)>, ErrV>
    decreases ms,
{
    if ms.len() == 0 {
        Ok(Seq::empty())
    } else {
        proof {
            assert(decreases_to!(ms => ms[0]));
        }
        let m = ms.first();
        match sem_specifier_qualifiers(m.specifier_qualifiers@, st) {
            Err(e) => Err(e),
            Ok(base) => match sem_declarator(base, m.declarator, st) {
                Err(e) => Err(e),
                Ok((name, ty)) => match sem_struct_members(ms.drop_first(), st) {
                    Err(e) => Err(e),
                    Ok(rest) => Ok(seq![(name, ty)] + rest),
                },
            },
        }
    }
}

/// The name and type a declarator composes around a base type: pointer
/// markers first, then the direct declarator inside-out.
pub open spec fn sem_declarator(
    base: TypeV,
    d: crate::ast::Declarator,
    st: Seq<ScopeV>,
) -> Result<(Seq<char>, TypeV), ErrV>
    decreases d,
{
    let wrapped = match d.pointer {
        Some(p) => pointer_wrap(base, p.levels as nat),
        None => base,
    };
    sem_direct_declarator(d.d_declarator, wrapped, st)
}

/// The direct declarator applied to an accumulated type: a name, an
/// array wrap, or a function shape over resolved parameter types.
pub open spec fn sem_direct_declarator(
    dd: crate::ast::DirectDeclarator,
    acc: TypeV,
    st: Seq<ScopeV>,
) -> Result<(Seq<char>, TypeV), ErrV>
    decreases dd,
{
    match dd {
        crate::ast::DirectDeclarator::Ident(n) => Ok((n@, acc)),
        crate::ast::DirectDeclarator::Array(inner, size) => sem_direct_declarator(
            *inner,
            TypeV::Array(Box::new(acc), size as nat),
            st,
        ),
        crate::ast::DirectDeclarator::Function(inner, params) => {
            proof {
                assert(decreases_to!(dd => params));
                assert(decreases_to!(params => params@));
            }
            match sem_params(params@, st) {
                Err(e) => Err(e),
                Ok(ptys) => sem_direct_declarator(
                    *inner,
                    TypeV::Function { return_ty: Box::new(acc), param_tys: ptys },
                    st,
                ),
            }
        },
    }
}

/// The resolved types of a parameter list, in order.
pub open spec fn sem_params(
    ps: Seq<crate::ast::ParameterDeclaration>,
    st: Seq<ScopeV>,
) -> Result<Seq<TypeV>, ErrV>
    decreases ps,
{
    if ps.len() == 0 {
        Ok(Seq::empty())
    } else {
        proof {
            assert(decreases_to!(ps => ps[0]));
        }
        let p = ps.first();
        match sem_decl_specs_ty(p.declaration_specifiers@, st) {
            Err(e) => Err(e),
            Ok(base) => match sem_declarator(base, p.declarator, st) {
                Err(e) => Err(e),
                Ok((name, ty)) => match sem_params(ps.drop_first(), st) {
                    Err(e) => Err(e),
                    Ok(rest) => Ok(seq![ty] + rest),
                },
            },
        }
    }
}

/// The type a declaration-specifier list denotes.  Storage classes and
/// qualifiers are ignored for typing; the type specifiers go through the
/// same canonical table.
pub open spec fn sem_decl_specs_ty(dss: Seq<DeclarationSpecifier>, st: Seq<ScopeV>) -> Result<
    TypeV,
    ErrV,
>
    decreases dss,
{
    let tss = ds_type_specs(dss);
    if tss.len() == 1 && ts_kind(tss[0]) == TsKind::Struct {
        let idx = first_ts_index_ds(dss);
        proof {
            lemma_first_ts_index_ds(dss);
            assert(decreases_to!(dss => dss[idx]));
        }
        sem_struct_specifier(dss[idx]->TypeSpecifier_0->StructOrUnionSpecifier_0, st)
    } else if tss.len() == 1 && ts_kind(tss[0]) == TsKind::Enum {
        Ok(TypeV::Int)
    } else if tss.len() == 1 && ts_kind(tss[0]) == TsKind::TypeDefName {
        match sem_typedef_lookup(tss[0]->TypeDefName_0@, st) {
            Some(t) => Ok(t),
            None => Err(ErrV::InvalidDeclarationSpecifiers(dss)),
        }
    } else {
        match table_lookup(tss) {
            Some(t) => Ok(t),
            None => Err(ErrV::InvalidDeclarationSpecifiers(dss)),
        }
    }
}

/// The type a type name denotes: the specifier-qualifier base, shaped by
/// the abstract declarator where one is present.
pub open spec fn sem_type_name(tn: crate::ast::TypeName, st: Seq<ScopeV>) -> Result<TypeV, ErrV> {
    match sem_specifier_qualifiers(tn.specifier_qualifiers@, st) {
        Err(e) => Err(e),
        Ok(base) => match tn.abstract_declarator {
            None => Ok(base),
            Some(ad) => Ok(sem_abstract_declarator(base, *ad)),
        },
    }
}

/// The abstract declarator applied to a base type: pointer markers apply
/// first, a bracketed count wraps the result in an array.
pub open spec fn sem_abstract_declarator(
    base: TypeV,
    ad: crate::ast::AbstractDeclarator,
) -> TypeV {
    match ad {
        crate::ast::AbstractDeclarator::Pointer(p) => pointer_wrap(base, p.levels as nat),
        crate::ast::AbstractDeclarator::PointerWithDirect(p, dad) => {
            let crate::ast::DirectAbstractDeclarator::Array(n) = dad;
            TypeV::Array(Box::new(pointer_wrap(base, p.levels as nat)), n as nat)
        },
        crate::ast::AbstractDeclarator::Direct(dad) => {
            let crate::ast::DirectAbstractDeclarator::Array(n) = dad;
            TypeV::Array(Box::new(base), n as nat)
        },
    }
}


/// One unfolding step of `count_kind` for a singleton sequence.
pub proof fn lemma_count_kind_singleton(tss: Seq<TypeSpecifier>, k: TsKind)
    requires
        tss.len() == 1,
    ensures
        count_kind(tss, k) == if ts_kind(tss[0]) == k {
            1nat
        } else {
            0nat
        },
{
    assert(tss.drop_last() =~= Seq::<TypeSpecifier>::empty());
    assert(count_kind(Seq::<TypeSpecifier>::empty(), k) == 0);
    assert(tss.last() == tss[0]);
}

/// Wrapping commutes with adding one pointer level inside.
pub proof fn lemma_pointer_wrap_comm(t: TypeV, n: nat)
    ensures
        pointer_wrap(TypeV::Pointer(Box::new(t)), n) == TypeV::Pointer(
            Box::new(pointer_wrap(t, n)),
        ),
    decreases n,
{
    if n > 0 {
        lemma_pointer_wrap_comm(t, (n - 1) as nat);
    }
}

/// The base type wrapped in the declarator's pointer levels.
pub fn wrap_pointer(base: Type, levels: usize) -> (r: Type)
    ensures
        r@ == pointer_wrap(base@, levels as nat),
{
    let mut acc = base;
    let mut lv: usize = levels;
    let ghost base_v = acc@;
    while lv > 0
        invariant
            pointer_wrap(acc@, lv as nat) == pointer_wrap(base_v, levels as nat),
        decreases lv,
    {
        proof {
            lemma_pointer_wrap_comm(acc@, (lv - 1) as nat);
        }
        acc = Type::Pointer(Box::new(acc));
        lv -= 1;
    }
    acc
}

/// The counts of one canonical rank class each, plus the number of type
/// specifiers altogether.
pub struct SpecCounts {
    pub n_void: usize,
    pub n_signed: usize,
    pub n_unsigned: usize,
    pub n_short: usize,
    pub n_long: usize,
    pub n_int: usize,
    pub n_char: usize,
    pub n_float: usize,
    pub n_double: usize,
    pub n_struct: usize,
    pub n_enum: usize,
    pub n_td: usize,
    pub n_ts: usize,
}

impl SpecCounts {
    pub open spec fn matches_seq(&self, tss: Seq<TypeSpecifier>) -> bool {
        &&& self.n_void == count_kind(tss, TsKind::Void)
        &&& self.n_signed == count_kind(tss, TsKind::Signed)
        &&& self.n_unsigned == count_kind(tss, TsKind::UnSigned)
        &&& self.n_short == count_kind(tss, TsKind::Short)
        &&& self.n_long == count_kind(tss, TsKind::Long)
        &&& self.n_int == count_kind(tss, TsKind::Int)
        &&& self.n_char == count_kind(tss, TsKind::Char)
        &&& self.n_float == count_kind(tss, TsKind::Float)
        &&& self.n_double == count_kind(tss, TsKind::Double)
        &&& self.n_struct == count_kind(tss, TsKind::Struct)
        &&& self.n_enum == count_kind(tss, TsKind::Enum)
        &&& self.n_td == count_kind(tss, TsKind::TypeDefName)
        &&& self.n_ts == tss.len()
    }

    pub fn new() -> (r: SpecCounts)
        ensures
            r.matches_seq(Seq::<TypeSpecifier>::empty()),
    {
        proof {
            assert(count_kind(Seq::<TypeSpecifier>::empty(), TsKind::Void) == 0);
        }
        SpecCounts {
            n_void: 0,
            n_signed: 0,
            n_unsigned: 0,
            n_short: 0,
            n_long: 0,
            n_int: 0,
            n_char: 0,
            n_float: 0,
            n_double: 0,
            n_struct: 0,
            n_enum: 0,
            n_td: 0,
            n_ts: 0,
        }
    }

    /// Accounts one more type specifier.
    pub fn add(&mut self, t: &TypeSpecifier, Ghost(tss): Ghost<Seq<TypeSpecifier>>)
        requires
            old(self).matches_seq(tss),
            tss.len() < usize::MAX,
        ensures
            final(self).matches_seq(tss.push(*t)),
    {
        proof {
            assert(tss.push(*t).drop_last() =~= tss);
            assert(tss.push(*t).last() == *t);
            lemma_count_kind_le(tss, TsKind::Void);
            lemma_count_kind_le(tss, TsKind::Signed);
            lemma_count_kind_le(tss, TsKind::UnSigned);
            lemma_count_kind_le(tss, TsKind::Short);
            lemma_count_kind_le(tss, TsKind::Long);
            lemma_count_kind_le(tss, TsKind::Int);
            lemma_count_kind_le(tss, TsKind::Char);
            lemma_count_kind_le(tss, TsKind::Float);
            lemma_count_kind_le(tss, TsKind::Double);
            lemma_count_kind_le(tss, TsKind::Struct);
            lemma_count_kind_le(tss, TsKind::Enum);
            lemma_count_kind_le(tss, TsKind::TypeDefName);
        }
        match t {
            TypeSpecifier::Void => self.n_void += 1,
            TypeSpecifier::Signed => self.n_signed += 1,
            TypeSpecifier::UnSigned => self.n_unsigned += 1,
            TypeSpecifier::Short => self.n_short += 1,
            TypeSpecifier::Long => self.n_long += 1,
            TypeSpecifier::Int => self.n_int += 1,
            TypeSpecifier::Char => self.n_char += 1,
            TypeSpecifier::Float => self.n_float += 1,
            TypeSpecifier::Double => self.n_double += 1,
            TypeSpecifier::StructOrUnionSpecifier(_) => self.n_struct += 1,
            TypeSpecifier::EnumSpecifier(_) => self.n_enum += 1,
            TypeSpecifier::TypeDefName(_) => self.n_td += 1,
        }
        self.n_ts += 1;
    }

    /// The keyword table applied to these counts.
    pub fn table(&self) -> (r: Option<Type>)
        ensures
            match r {
                Some(t) => table_from_counts(
                    self.n_void as nat,
                    self.n_signed as nat,
                    self.n_unsigned as nat,
                    self.n_short as nat,
                    self.n_long as nat,
                    self.n_int as nat,
                    self.n_char as nat,
                    self.n_float as nat,
                    self.n_double as nat,
                    (self.n_struct + self.n_enum + self.n_td) as nat,
                    self.n_ts as nat,
                ) == Some(t@),
                None => table_from_counts(
                    self.n_void as nat,
                    self.n_signed as nat,
                    self.n_unsigned as nat,
                    self.n_short as nat,
                    self.n_long as nat,
                    self.n_int as nat,
                    self.n_char as nat,
                    self.n_float as nat,
                    self.n_double as nat,
                    (self.n_struct + self.n_enum + self.n_td) as nat,
                    self.n_ts as nat,
                ) is None,
            },
    {
        let n_void = self.n_void;
        let n_signed = self.n_signed;
        let n_unsigned = self.n_unsigned;
        let n_short = self.n_short;
        let n_long = self.n_long;
        let n_int = self.n_int;
        let n_char = self.n_char;
        let n_float = self.n_float;
        let n_double = self.n_double;
        let total = self.n_ts;
        if self.n_struct != 0 || self.n_enum != 0 || self.n_td != 0 {
            None
        } else if n_void == 1 && total == 1 {
            Some(Type::Void)
        } else if n_char == 1 && n_signed == 0 && n_unsigned == 0 && total == 1 {
            Some(Type::Char)
        } else if n_char == 1 && n_signed == 1 && total == 2 {
            Some(Type::SignedChar)
        } else if n_char == 1 && n_unsigned == 1 && total == 2 {
            Some(Type::UnSignedChar)
        } else if n_short == 1 && n_unsigned == 0 && n_long == 0 && n_char == 0 && n_void == 0
            && n_float == 0 && n_double == 0 && n_signed <= 1 && n_int <= 1 && total == 1
            + n_signed + n_int {
            Some(Type::Short)
        } else if n_short == 1 && n_unsigned == 1 && n_signed == 0 && n_long == 0 && n_char == 0
            && n_void == 0 && n_float == 0 && n_double == 0 && n_int <= 1 && total == 2 + n_int {
            Some(Type::UnSignedShort)
        } else if n_void == 0 && n_unsigned == 0 && n_short == 0 && n_long == 0 && n_char == 0
            && n_float == 0 && n_double == 0 && n_signed <= 1 && n_int <= 1 && n_signed + n_int
            >= 1 && total == n_signed + n_int {
            Some(Type::Int)
        } else if n_unsigned == 1 && n_void == 0 && n_signed == 0 && n_short == 0 && n_long == 0
            && n_char == 0 && n_float == 0 && n_double == 0 && n_int <= 1 && total == 1 + n_int {
            Some(Type::UnSigned)
        } else if n_long == 1 && n_void == 0 && n_unsigned == 0 && n_short == 0 && n_char == 0
            && n_float == 0 && n_double == 0 && n_signed <= 1 && n_int <= 1 && total == 1
            + n_signed + n_int {
            Some(Type::Long)
        } else if n_long == 1 && n_unsigned == 1 && n_void == 0 && n_signed == 0 && n_short == 0
            && n_char == 0 && n_float == 0 && n_double == 0 && n_int <= 1 && total == 2 + n_int {
            Some(Type::UnSignedLong)
        } else if n_long == 2 && n_void == 0 && n_unsigned == 0 && n_short == 0 && n_char == 0
            && n_float == 0 && n_double == 0 && n_signed <= 1 && n_int <= 1 && total == 2
            + n_signed + n_int {
            Some(Type::LongLong)
        } else if n_long == 2 && n_unsigned == 1 && n_void == 0 && n_signed == 0 && n_short == 0
            && n_char == 0 && n_float == 0 && n_double == 0 && n_int <= 1 && total == 3 + n_int {
            Some(Type::UnSignedLongLong)
        } else if n_float == 1 && total == 1 {
            Some(Type::Float)
        } else if n_double == 1 && n_long == 0 && total == 1 {
            Some(Type::Double)
        } else if n_double == 1 && n_long == 1 && total == 2 {
            Some(Type::LongDouble)
        } else {
            None
        }
    }
}


/// Three distinct rank classes never count more than the length together.
pub proof fn lemma_count_three_kinds(s: Seq<TypeSpecifier>)
    ensures
        count_kind(s, TsKind::Struct) + count_kind(s, TsKind::Enum) + count_kind(
            s,
            TsKind::TypeDefName,
        ) <= s.len(),
    decreases s,
{
    if s.len() > 0 {
        lemma_count_three_kinds(s.drop_last());
    }
}

/// The type a specifier-qualifier list denotes, as used by type names and
/// struct members.  Read-only: a lone enumeration specifier contributes
/// `int` here without declaring its constants.
pub fn analyze_specifier_qualifiers<'a>(
    sqs: &'a Vec<SpecifierQualifier>,
    ctx: &SemanticContext,
) -> (r: Result<Type, SemanticError<'a>>)
    ensures
        res_ty_view(r) == sem_specifier_qualifiers(sqs@, ctx@),
    decreases sqs@,
{
    let ghost tss = sq_type_specs(sqs@);
    let mut counts = SpecCounts::new();
    let mut i: usize = 0;
    proof {
        assert(sqs@.take(0) =~= Seq::<SpecifierQualifier>::empty());
        assert(sq_type_specs(Seq::<SpecifierQualifier>::empty()) =~= Seq::<TypeSpecifier>::empty());
    }
    while i < sqs.len()
        invariant
            i <= sqs@.len(),
            counts.matches_seq(sq_type_specs(sqs@.take(i as int))),
        decreases sqs@.len() - i,
    {
        proof {
            assert(sqs@.take(i + 1).drop_last() =~= sqs@.take(i as int));
            assert(sqs@.take(i + 1).last() == sqs@[i as int]);
            lemma_sq_type_specs_len(sqs@.take(i as int));
        }
        match &sqs[i] {
            SpecifierQualifier::TypeSpecifier(t) => {
                counts.add(t, Ghost(sq_type_specs(sqs@.take(i as int))));
            },
            SpecifierQualifier::TypeQualifier(_) => {},
        }
        i += 1;
    }
    proof {
        assert(sqs@.take(sqs@.len() as int) =~= sqs@);
        if tss.len() == 1 {
            lemma_count_kind_singleton(tss, TsKind::Struct);
            lemma_count_kind_singleton(tss, TsKind::Enum);
            lemma_count_kind_singleton(tss, TsKind::TypeDefName);
        }
    }
    if counts.n_ts == 1 && counts.n_struct == 1 {
        proof {
            lemma_first_ts_index_sq(sqs@);
        }
        let mut j: usize = 0;
        while j < sqs.len()
            invariant
                j <= sqs@.len(),
                forall|k: int|
                    0 <= k < j ==> !((#[trigger] sqs@[k]) matches SpecifierQualifier::TypeSpecifier(t2)),
                sq_type_specs(sqs@).len() == 1,
                ts_kind(sq_type_specs(sqs@)[0]) == TsKind::Struct,
            decreases sqs@.len() - j,
        {
            match &sqs[j] {
                SpecifierQualifier::TypeSpecifier(t) => {
                    proof {
                        lemma_first_ts_index_sq(sqs@);
                        assert(j as int == first_ts_index_sq(sqs@));
                        assert(*t == sq_type_specs(sqs@)[0]);
                    }
                    match t {
                        TypeSpecifier::StructOrUnionSpecifier(sou) => {
                            proof {
                                assert(decreases_to!(sqs@ => sqs@[j as int]));
                            }
                            return analyze_struct_or_union_specifier(sou, ctx);
                        },
                        _ => {
                            proof {
                                assert(false);
                            }
                            return Err(SemanticError::InvalidSpecifierQualifiers(sqs));
                        },
                    }
                },
                SpecifierQualifier::TypeQualifier(_) => {},
            }
            j += 1;
        }
        proof {
            assert(false);
        }
        Err(SemanticError::InvalidSpecifierQualifiers(sqs))
    } else if counts.n_ts == 1 && counts.n_enum == 1 {
        Ok(Type::Int)
    } else if counts.n_ts == 1 && counts.n_td == 1 {
        proof {
            lemma_first_ts_index_sq(sqs@);
        }
        let mut j: usize = 0;
        while j < sqs.len()
            invariant
                j <= sqs@.len(),
                forall|k: int|
                    0 <= k < j ==> !((#[trigger] sqs@[k]) matches SpecifierQualifier::TypeSpecifier(t2)),
                sq_type_specs(sqs@).len() == 1,
                ts_kind(sq_type_specs(sqs@)[0]) == TsKind::TypeDefName,
            decreases sqs@.len() - j,
        {
            match &sqs[j] {
                SpecifierQualifier::TypeSpecifier(t) => {
                    proof {
                        lemma_first_ts_index_sq(sqs@);
                        assert(j as int == first_ts_index_sq(sqs@));
                        assert(*t == sq_type_specs(sqs@)[0]);
                    }
                    match t {
                        TypeSpecifier::TypeDefName(name) => {
                            return match ctx.find_var(name) {
                                Some(t2) => match t2 {
                                    Type::TypeDef { name: _, ty: _ } => Ok(clone_type(t2)),
                                    _ => Err(SemanticError::InvalidSpecifierQualifiers(sqs)),
                                },
                                None => Err(SemanticError::InvalidSpecifierQualifiers(sqs)),
                            };
                        },
                        _ => {
                            proof {
                                assert(false);
                            }
                            return Err(SemanticError::InvalidSpecifierQualifiers(sqs));
                        },
                    }
                },
                SpecifierQualifier::TypeQualifier(_) => {},
            }
            j += 1;
        }
        proof {
            assert(false);
        }
        Err(SemanticError::InvalidSpecifierQualifiers(sqs))
    } else {
        match counts.table() {
            Some(t) => Ok(t),
            None => Err(SemanticError::InvalidSpecifierQualifiers(sqs)),
        }
    }
}

/// The type a declaration-specifier list denotes; storage classes and
/// qualifiers are ignored for typing.
pub fn analyze_declaration_specifiers<'a>(
    dss: &'a Vec<DeclarationSpecifier>,
    ctx: &SemanticContext,
) -> (r: Result<Type, SemanticError<'a>>)
    ensures
        res_ty_view(r) == sem_decl_specs_ty(dss@, ctx@),
    decreases dss@,
{
    let ghost tss = ds_type_specs(dss@);
    let mut counts = SpecCounts::new();
    let mut i: usize = 0;
    proof {
        assert(dss@.take(0) =~= Seq::<DeclarationSpecifier>::empty());
        assert(ds_type_specs(Seq::<DeclarationSpecifier>::empty()) =~= Seq::<TypeSpecifier>::empty());
    }
    while i < dss.len()
        invariant
            i <= dss@.len(),
            counts.matches_seq(ds_type_specs(dss@.take(i as int))),
        decreases dss@.len() - i,
    {
        proof {
            assert(dss@.take(i + 1).drop_last() =~= dss@.take(i as int));
            assert(dss@.take(i + 1).last() == dss@[i as int]);
            lemma_ds_type_specs_len(dss@.take(i as int));
        }
        match &dss[i] {
            DeclarationSpecifier::TypeSpecifier(t) => {
                counts.add(t, Ghost(ds_type_specs(dss@.take(i as int))));
            },
            _ => {},
        }
        i += 1;
    }
    proof {
        assert(dss@.take(dss@.len() as int) =~= dss@);
        if tss.len() == 1 {
            lemma_count_kind_singleton(tss, TsKind::Struct);
            lemma_count_kind_singleton(tss, TsKind::Enum);
            lemma_count_kind_singleton(tss, TsKind::TypeDefName);
        }
    }
    if counts.n_ts == 1 && counts.n_struct == 1 {
        proof {
            lemma_first_ts_index_ds(dss@);
        }
        let mut j: usize = 0;
        while j < dss.len()
            invariant
                j <= dss@.len(),
                forall|k: int|
                    0 <= k < j ==> !((#[trigger] dss@[k]) matches DeclarationSpecifier::TypeSpecifier(t2)),
                ds_type_specs(dss@).len() == 1,
                ts_kind(ds_type_specs(dss@)[0]) == TsKind::Struct,
            decreases dss@.len() - j,
        {
            match &dss[j] {
                DeclarationSpecifier::TypeSpecifier(t) => {
                    proof {
                        lemma_first_ts_index_ds(dss@);
                        assert(j as int == first_ts_index_ds(dss@));
                        assert(*t == ds_type_specs(dss@)[0]);
                    }
                    match t {
                        TypeSpecifier::StructOrUnionSpecifier(sou) => {
                            proof {
                                assert(decreases_to!(dss@ => dss@[j as int]));
                            }
                            return analyze_struct_or_union_specifier(sou, ctx);
                        },
                        _ => {
                            proof {
                                assert(false);
                            }
                            return Err(SemanticError::InvalidDeclarationSpecifiers(dss));
                        },
                    }
                },
                _ => {},
            }
            j += 1;
        }
        proof {
            assert(false);
        }
        Err(SemanticError::InvalidDeclarationSpecifiers(dss))
    } else if counts.n_ts == 1 && counts.n_enum == 1 {
        Ok(Type::Int)
    } else if counts.n_ts == 1 && counts.n_td == 1 {
        proof {
            lemma_first_ts_index_ds(dss@);
        }
        let mut j: usize = 0;
        while j < dss.len()
            invariant
                j <= dss@.len(),
                forall|k: int|
                    0 <= k < j ==> !((#[trigger] dss@[k]) matches DeclarationSpecifier::TypeSpecifier(t2)),
                ds_type_specs(dss@).len() == 1,
                ts_kind(ds_type_specs(dss@)[0]) == TsKind::TypeDefName,
            decreases dss@.len() - j,
        {
            match &dss[j] {
                DeclarationSpecifier::TypeSpecifier(t) => {
                    proof {
                        lemma_first_ts_index_ds(dss@);
                        assert(j as int == first_ts_index_ds(dss@));
                        assert(*t == ds_type_specs(dss@)[0]);
                    }
                    match t {
                        TypeSpecifier::TypeDefName(name) => {
                            return match ctx.find_var(name) {
                                Some(t2) => match t2 {
                                    Type::TypeDef { name: _, ty: _ } => Ok(clone_type(t2)),
                                    _ => Err(SemanticError::InvalidDeclarationSpecifiers(dss)),
                                },
                                None => Err(SemanticError::InvalidDeclarationSpecifiers(dss)),
                            };
                        },
                        _ => {
                            proof {
                                assert(false);
                            }
                            return Err(SemanticError::InvalidDeclarationSpecifiers(dss));
                        },
                    }
                },
                _ => {},
            }
            j += 1;
        }
        proof {
            assert(false);
        }
        Err(SemanticError::InvalidDeclarationSpecifiers(dss))
    } else {
        match counts.table() {
            Some(t) => Ok(t),
            None => Err(SemanticError::InvalidDeclarationSpecifiers(dss)),
        }
    }
}

/// The struct or union type a specifier denotes, member by member.
pub fn analyze_struct_or_union_specifier<'a>(
    sou: &'a StructOrUnionSpecifier,
    ctx: &SemanticContext,
) -> (r: Result<Type, SemanticError<'a>>)
    ensures
        res_ty_view(r) == sem_struct_specifier(*sou, ctx@),
    decreases *sou,
{
    proof {
        assert(decreases_to!(*sou => sou.members));
    }
    match analyze_struct_members(&sou.members, ctx) {
        Ok(ms) => Ok(Type::Struct { name: sou.name.clone(), members: ms }),
        Err(e) => Err(e),
    }
}

/// The resolved member list of a struct specifier, stopping at the first
/// failing member.
pub fn analyze_struct_members<'a>(
    members: &'a Vec<StructMember>,
    ctx: &SemanticContext,
) -> (r: Result<Vec<(String, Type)>, SemanticError<'a>>)
    ensures
        match r {
            Ok(ms) => sem_struct_members(members@, ctx@) == Ok::<_, ErrV>(seq_member_view(ms@)),
            Err(e) => sem_struct_members(members@, ctx@) == Err::<Seq<(Seq<char>, TypeV)>, _>(e@),
        },
    decreases members@,
{
    let mut ms: Vec<(String, Type)> = Vec::new();
    let mut i: usize = 0;
    proof {
        assert(members@.skip(0) =~= members@);
        lemma_seq_member_view(ms@);
    }
    while i < members.len()
        invariant
            i <= members@.len(),
            ms@.len() == i,
            forall|rest: Seq<(Seq<char>, TypeV)>|
                sem_struct_members(members@.skip(i as int), ctx@) == Ok::<_, ErrV>(rest)
                    ==> sem_struct_members(members@, ctx@) == Ok::<_, ErrV>(
                    seq_member_view(ms@) + rest,
                ),
            forall|e: ErrV|
                sem_struct_members(members@.skip(i as int), ctx@) == Err::<
                    Seq<(Seq<char>, TypeV)>,
                    _,
                >(e) ==> sem_struct_members(members@, ctx@) == Err::<Seq<(Seq<char>, TypeV)>, _>(
                    e,
                ),
        decreases members@.len() - i,
    {
        proof {
            assert(members@.skip(i as int).first() == members@[i as int]);
            assert(members@.skip(i as int).drop_first() =~= members@.skip(i as int + 1));
            assert(decreases_to!(members@ => members@[i as int]));
        }
        let m = &members[i];
        let base = match analyze_specifier_qualifiers(&m.specifier_qualifiers, ctx) {
            Ok(b) => b,
            Err(e) => {
                return Err(e);
            },
        };
        let (name, ty) = match analyze_declarator(base, &m.declarator, ctx) {
            Ok(p) => p,
            Err(e) => {
                return Err(e);
            },
        };
        proof {
            lemma_seq_member_view(ms@);
            lemma_seq_member_view(ms@.push((name, ty)));
            assert(ms@.push((name, ty)).drop_last() =~= ms@);
            assert(forall|rest: Seq<(Seq<char>, TypeV)>|
                seq_member_view(ms@) + (seq![(name@, ty@)] + rest) =~= seq_member_view(
                    ms@.push((name, ty)),
                ) + rest);
        }
        ms.push((name, ty));
        i += 1;
    }
    proof {
        assert(members@.skip(members@.len() as int) =~= Seq::<StructMember>::empty());
        assert(sem_struct_members(Seq::<StructMember>::empty(), ctx@) == Ok::<_, ErrV>(Seq::<
            (Seq<char>, TypeV),
        >::empty()));
        assert(seq_member_view(ms@) + Seq::<(Seq<char>, TypeV)>::empty() =~= seq_member_view(
            ms@,
        ));
    }
    Ok(ms)
}

/// The name and type a declarator composes around a base type.
pub fn analyze_declarator<'a>(
    base: Type,
    d: &'a Declarator,
    ctx: &SemanticContext,
) -> (r: Result<(String, Type), SemanticError<'a>>)
    ensures
        match r {
            Ok(p) => sem_declarator(base@, *d, ctx@) == Ok::<_, ErrV>((p.0@, p.1@)),
            Err(e) => sem_declarator(base@, *d, ctx@) == Err::<(Seq<char>, TypeV), _>(e@),
        },
    decreases *d,
{
    let wrapped = match &d.pointer {
        Some(p) => wrap_pointer(base, p.levels),
        None => base,
    };
    proof {
        assert(decreases_to!(*d => d.d_declarator));
    }
    analyze_direct_declarator(&d.d_declarator, wrapped, ctx)
}

/// The direct declarator applied to an accumulated type.
pub fn analyze_direct_declarator<'a>(
    dd: &'a DirectDeclarator,
    acc: Type,
    ctx: &SemanticContext,
) -> (r: Result<(String, Type), SemanticError<'a>>)
    ensures
        match r {
            Ok(p) => sem_direct_declarator(*dd, acc@, ctx@) == Ok::<_, ErrV>((p.0@, p.1@)),
            Err(e) => sem_direct_declarator(*dd, acc@, ctx@) == Err::<(Seq<char>, TypeV), _>(e@),
        },
    decreases *dd,
{
    match dd {
        DirectDeclarator::Ident(n) => Ok((n.clone(), acc)),
        DirectDeclarator::Array(inner, size) => analyze_direct_declarator(
            inner,
            Type::Array(Box::new(acc), *size),
            ctx,
        ),
        DirectDeclarator::Function(inner, params) => {
            proof {
                assert(decreases_to!(*dd => *params));
            }
            match analyze_parameter_types(params, ctx) {
                Err(e) => Err(e),
                Ok(ptys) => analyze_direct_declarator(
                    inner,
                    Type::Function { return_ty: Box::new(acc), param_tys: ptys },
                    ctx,
                ),
            }
        },
    }
}

/// The resolved types of a parameter list, stopping at the first failing
/// parameter.
pub fn analyze_parameter_types<'a>(
    params: &'a Vec<ParameterDeclaration>,
    ctx: &SemanticContext,
) -> (r: Result<Vec<Type>, SemanticError<'a>>)
    ensures
        match r {
            Ok(ts) => sem_params(params@, ctx@) == Ok::<_, ErrV>(seq_type_view(ts@)),
            Err(e) => sem_params(params@, ctx@) == Err::<Seq<TypeV>, _>(e@),
        },
    decreases params@,
{
    let mut ts: Vec<Type> = Vec::new();
    let mut i: usize = 0;
    proof {
        assert(params@.skip(0) =~= params@);
        lemma_seq_type_view(ts@);
    }
    while i < params.len()
        invariant
            i <= params@.len(),
            ts@.len() == i,
            forall|rest: Seq<TypeV>|
                sem_params(params@.skip(i as int), ctx@) == Ok::<_, ErrV>(rest)
                    ==> sem_params(params@, ctx@) == Ok::<_, ErrV>(seq_type_view(ts@) + rest),
            forall|e: ErrV|
                sem_params(params@.skip(i as int), ctx@) == Err::<Seq<TypeV>, _>(e)
                    ==> sem_params(params@, ctx@) == Err::<Seq<TypeV>, _>(e),
        decreases params@.len() - i,
    {
        proof {
            assert(params@.skip(i as int).first() == params@[i as int]);
            assert(params@.skip(i as int).drop_first() =~= params@.skip(i as int + 1));
            assert(decreases_to!(params@ => params@[i as int]));
        }
        let p = &params[i];
        let base = match analyze_declaration_specifiers(&p.declaration_specifiers, ctx) {
            Ok(b) => b,
            Err(e) => {
                return Err(e);
            },
        };
        let (_name, ty) = match analyze_declarator(base, &p.declarator, ctx) {
            Ok(pair) => pair,
            Err(e) => {
                return Err(e);
            },
        };
        proof {
            lemma_seq_type_view(ts@);
            lemma_seq_type_view(ts@.push(ty));
            assert(ts@.push(ty).drop_last() =~= ts@);
            assert(forall|rest: Seq<TypeV>|
                seq_type_view(ts@) + (seq![ty@] + rest) =~= seq_type_view(ts@.push(ty)) + rest);
        }
        ts.push(ty);
        i += 1;
    }
    proof {
        assert(params@.skip(params@.len() as int) =~= Seq::<ParameterDeclaration>::empty());
        assert(sem_params(Seq::<ParameterDeclaration>::empty(), ctx@) == Ok::<_, ErrV>(Seq::<
            TypeV,
        >::empty()));
        assert(seq_type_view(ts@) + Seq::<TypeV>::empty() =~= seq_type_view(ts@));
    }
    Ok(ts)
}

/// The type a type name denotes, as used by casts and `sizeof`.
pub fn analyze_type_name<'a>(tn: &'a TypeName, ctx: &SemanticContext) -> (r: Result<
    Type,
    SemanticError<'a>,
>)
    ensures
        res_ty_view(r) == sem_type_name(*tn, ctx@),
{
    let base = match analyze_specifier_qualifiers(&tn.specifier_qualifiers, ctx) {
        Ok(b) => b,
        Err(e) => {
            return Err(e);
        },
    };
    match &tn.abstract_declarator {
        None => Ok(base),
        Some(ad) => match &**ad {
            AbstractDeclarator::Pointer(p) => Ok(wrap_pointer(base, p.levels)),
            AbstractDeclarator::PointerWithDirect(p, dad) => {
                let DirectAbstractDeclarator::Array(n) = dad;
                Ok(Type::Array(Box::new(wrap_pointer(base, p.levels)), *n))
            },
            AbstractDeclarator::Direct(dad) => {
                let DirectAbstractDeclarator::Array(n) = dad;
                Ok(Type::Array(Box::new(base), *n))
            },
        },
    }
}


/// The rank-class counts of a declaration-specifier list.
pub fn ds_counts(dss: &Vec<DeclarationSpecifier>) -> (c: SpecCounts)
    ensures
        c.matches_seq(ds_type_specs(dss@)),
{
    let mut counts = SpecCounts::new();
    let mut i: usize = 0;
    proof {
        assert(dss@.take(0) =~= Seq::<DeclarationSpecifier>::empty());
        assert(ds_type_specs(Seq::<DeclarationSpecifier>::empty()) =~= Seq::<TypeSpecifier>::empty());
    }
    while i < dss.len()
        invariant
            i <= dss@.len(),
            counts.matches_seq(ds_type_specs(dss@.take(i as int))),
        decreases dss@.len() - i,
    {
        proof {
            assert(dss@.take(i + 1).drop_last() =~= dss@.take(i as int));
            assert(dss@.take(i + 1).last() == dss@[i as int]);
            lemma_ds_type_specs_len(dss@.take(i as int));
        }
        match &dss[i] {
            DeclarationSpecifier::TypeSpecifier(t) => {
                counts.add(t, Ghost(ds_type_specs(dss@.take(i as int))));
            },
            _ => {},
        }
        i += 1;
    }
    proof {
        assert(dss@.take(dss@.len() as int) =~= dss@);
    }
    counts
}

} // verus!
