//! The expression analyzer: a strict precedence chain, each layer
//! checking one operator class and delegating downward.  Expression
//! analysis reads the scope stack and never changes it.

use vstd::prelude::*;

use crate::ast::{
    AdditiveExpr, AssignmentExpr, BitAndExpr, BitOrExpr, CastExpr, ComparisionExpr,
    ConditionalExpr, EqualityExpr, LogicalAndExpr, LogicalOrExpr, MultiplicativeExpr,
    PostfixExpr, Primary, ShiftExpr, UnaryExpr, XORExpr,
};
use crate::error::{res_ty_view, BinOp, ErrV, SemanticError};
use crate::scope::{stack_find_enum, stack_find_var, ScopeV, SemanticContext};
use crate::specifiers::sem_type_name;
use crate::types::{clone_type, lemma_seq_type_view, seq_type_view, type_eq, Type, TypeV};

verus! {

/// The operand pairs the logical and bitwise layers accept.
pub open spec fn int_char_pair(l: TypeV, r: TypeV) -> bool {
    (l is Int && r is Int) || (l is Char && r is Char)
}

/// The operand pairs equality and relational layers accept.
pub open spec fn scalar_pair(l: TypeV, r: TypeV) -> bool {
    int_char_pair(l, r) || (l is Float && r is Float) || (l is Double && r is Double)
}

/// The operand pairs the additive and multiplicative layers accept.
pub open spec fn arith_pair(l: TypeV, r: TypeV) -> bool {
    (l is Int && r is Int) || (l is Float && r is Float) || (l is Double && r is Double)
}

/// The type of an assignment expression: the conditional layer, or a
/// compound assignment demanding exactly equal sides.
pub open spec fn sem_assignment_expr(e: AssignmentExpr, st: Seq<ScopeV>) -> Result<TypeV, ErrV>
    decreases e,
{
    match e {
        AssignmentExpr::ConditionalExpr(inner) => sem_conditional_expr(inner, st),
        AssignmentExpr::Assign(lhs, rhs)
        | AssignmentExpr::MulAssign(lhs, rhs)
        | AssignmentExpr::DivAssign(lhs, rhs)
        | AssignmentExpr::ModAssign(lhs, rhs)
        | AssignmentExpr::AddAssign(lhs, rhs)
        | AssignmentExpr::SubAssign(lhs, rhs)
        | AssignmentExpr::ShiftLeftAssign(lhs, rhs)
        | AssignmentExpr::ShiftRightAssign(lhs, rhs)
        | AssignmentExpr::BitAndAssign(lhs, rhs)
        | AssignmentExpr::XORAssign(lhs, rhs)
        | AssignmentExpr::BitOrAssign(lhs, rhs) => match sem_unary_expr(lhs, st) {
            Err(er) => Err(er),
            Ok(lt) => match sem_assignment_expr(*rhs, st) {
                Err(er) => Err(er),
                Ok(rt) => if lt == rt {
                    Ok(lt)
                } else {
                    Err(ErrV::TypeMismatch(lt, rt))
                },
            },
        },
    }
}

/// The type of a conditional expression; a ternary needs an `int` test
/// and exactly equal branch types.
pub open spec fn sem_conditional_expr(e: ConditionalExpr, st: Seq<ScopeV>) -> Result<TypeV, ErrV>
    decreases e,
{
    match e {
        ConditionalExpr::LogicalOrExpr(inner) => sem_logicalor_expr(inner, st),
        ConditionalExpr::Ternary { test, pass, fail } => match sem_logicalor_expr(test, st) {
            Err(er) => Err(er),
            Ok(tt) => if !(tt is Int) {
                Err(ErrV::UnexpectedType { expected: TypeV::Int, actual: tt })
            } else {
                match sem_assignment_expr(*pass, st) {
                    Err(er) => Err(er),
                    Ok(pt) => match sem_conditional_expr(*fail, st) {
                        Err(er) => Err(er),
                        Ok(ft) => if pt == ft {
                            Ok(pt)
                        } else {
                            Err(ErrV::TypeMismatch(pt, ft))
                        },
                    },
                }
            },
        },
    }
}

/// Logical-or layer: `int`/`int` or `char`/`char` operands give `int`.
pub open spec fn sem_logicalor_expr(e: LogicalOrExpr, st: Seq<ScopeV>) -> Result<TypeV, ErrV>
    decreases e,
{
    match e {
        LogicalOrExpr::LogicalAndExpr(inner) => sem_logicaland_expr(inner, st),
        LogicalOrExpr::LogicalOr(lhs, rhs) => match sem_logicalor_expr(*lhs, st) {
            Err(er) => Err(er),
            Ok(lt) => match sem_logicaland_expr(rhs, st) {
                Err(er) => Err(er),
                Ok(rt) => if int_char_pair(lt, rt) {
                    Ok(TypeV::Int)
                } else {
                    Err(ErrV::InvalidBinaryOperands(BinOp::LogicalOr))
                },
            },
        },
    }
}

/// Logical-and layer.
pub open spec fn sem_logicaland_expr(e: LogicalAndExpr, st: Seq<ScopeV>) -> Result<TypeV, ErrV>
    decreases e,
{
    match e {
        LogicalAndExpr::BitOrExpr(inner) => sem_bitor_expr(inner, st),
        LogicalAndExpr::LogicalAnd(lhs, rhs) => match sem_logicaland_expr(*lhs, st) {
            Err(er) => Err(er),
            Ok(lt) => match sem_bitor_expr(rhs, st) {
                Err(er) => Err(er),
                Ok(rt) => if int_char_pair(lt, rt) {
                    Ok(TypeV::Int)
                } else {
                    Err(ErrV::InvalidBinaryOperands(BinOp::LogicalAnd))
                },
            },
        },
    }
}

/// Bitwise-or layer.
pub open spec fn sem_bitor_expr(e: BitOrExpr, st: Seq<ScopeV>) -> Result<TypeV, ErrV>
    decreases e,
{
    match e {
        BitOrExpr::XORExpr(inner) => sem_xor_expr(inner, st),
        BitOrExpr::BitOr(lhs, rhs) => match sem_bitor_expr(*lhs, st) {
            Err(er) => Err(er),
            Ok(lt) => match sem_xor_expr(rhs, st) {
                Err(er) => Err(er),
                Ok(rt) => if int_char_pair(lt, rt) {
                    Ok(TypeV::Int)
                } else {
                    Err(ErrV::InvalidBinaryOperands(BinOp::BitOr))
                },
            },
        },
    }
}

/// Exclusive-or layer.
pub open spec fn sem_xor_expr(e: XORExpr, st: Seq<ScopeV>) -> Result<TypeV, ErrV>
    decreases e,
{
    match e {
        XORExpr::BitAndExpr(inner) => sem_bitand_expr(inner, st),
        XORExpr::XOR(lhs, rhs) => match sem_xor_expr(*lhs, st) {
            Err(er) => Err(er),
            Ok(lt) => match sem_bitand_expr(rhs, st) {
                Err(er) => Err(er),
                Ok(rt) => if int_char_pair(lt, rt) {
                    Ok(TypeV::Int)
                } else {
                    Err(ErrV::InvalidBinaryOperands(BinOp::XOR))
                },
            },
        },
    }
}

/// Bitwise-and layer.
pub open spec fn sem_bitand_expr(e: BitAndExpr, st: Seq<ScopeV>) -> Result<TypeV, ErrV>
    decreases e,
{
    match e {
        BitAndExpr::EqualityExpr(inner) => sem_equality_expr(inner, st),
        BitAndExpr::BitAnd(lhs, rhs) => match sem_bitand_expr(*lhs, st) {
            Err(er) => Err(er),
            Ok(lt) => match sem_equality_expr(rhs, st) {
                Err(er) => Err(er),
                Ok(rt) => if int_char_pair(lt, rt) {
                    Ok(TypeV::Int)
                } else {
                    Err(ErrV::InvalidBinaryOperands(BinOp::BitAnd))
                },
            },
        },
    }
}

/// Equality layer: four same-kind operand pairs, result `int`.
pub open spec fn sem_equality_expr(e: EqualityExpr, st: Seq<ScopeV>) -> Result<TypeV, ErrV>
    decreases e,
{
    match e {
        EqualityExpr::ComparisionExpr(inner) => sem_comparision_expr(inner, st),
        EqualityExpr::EQ(lhs, rhs) | EqualityExpr::NE(lhs, rhs) => match sem_equality_expr(
            *lhs,
            st,
        ) {
            Err(er) => Err(er),
            Ok(lt) => match sem_comparision_expr(rhs, st) {
                Err(er) => Err(er),
                Ok(rt) => if scalar_pair(lt, rt) {
                    Ok(TypeV::Int)
                } else {
                    Err(ErrV::InvalidBinaryOperands(BinOp::Equality))
                },
            },
        },
    }
}

/// Relational layer: the same pairs as equality, but the result keeps
/// the operand type.
pub open spec fn sem_comparision_expr(e: ComparisionExpr, st: Seq<ScopeV>) -> Result<TypeV, ErrV>
    decreases e,
{
    match e {
        ComparisionExpr::ShiftExpr(inner) => sem_shift_expr(inner, st),
        ComparisionExpr::LT(lhs, rhs)
        | ComparisionExpr::GT(lhs, rhs)
        | ComparisionExpr::LE(lhs, rhs)
        | ComparisionExpr::GE(lhs, rhs) => match sem_comparision_expr(*lhs, st) {
            Err(er) => Err(er),
            Ok(lt) => match sem_shift_expr(rhs, st) {
                Err(er) => Err(er),
                Ok(rt) => if scalar_pair(lt, rt) {
                    Ok(lt)
                } else {
                    Err(ErrV::InvalidBinaryOperands(BinOp::Comparision))
                },
            },
        },
    }
}

/// Shift layer: `int` operands only.
pub open spec fn sem_shift_expr(e: ShiftExpr, st: Seq<ScopeV>) -> Result<TypeV, ErrV>
    decreases e,
{
    match e {
        ShiftExpr::AdditiveExpr(inner) => sem_additive_expr(inner, st),
        ShiftExpr::ShiftLeft(lhs, rhs) | ShiftExpr::ShiftRight(lhs, rhs) => match sem_shift_expr(
            *lhs,
            st,
        ) {
            Err(er) => Err(er),
            Ok(lt) => match sem_additive_expr(rhs, st) {
                Err(er) => Err(er),
                Ok(rt) => if lt is Int && rt is Int {
                    Ok(TypeV::Int)
                } else {
                    Err(ErrV::InvalidBinaryOperands(BinOp::Shift))
                },
            },
        },
    }
}

/// Additive layer: matching `int`, `float` or `double` operands keep
/// their type; no promotion between distinct kinds.
pub open spec fn sem_additive_expr(e: AdditiveExpr, st: Seq<ScopeV>) -> Result<TypeV, ErrV>
    decreases e,
{
    match e {
        AdditiveExpr::MultiplicativeExpr(inner) => sem_multiplicative_expr(inner, st),
        AdditiveExpr::Add(lhs, rhs) | AdditiveExpr::Sub(lhs, rhs) => match sem_additive_expr(
            *lhs,
            st,
        ) {
            Err(er) => Err(er),
            Ok(lt) => match sem_multiplicative_expr(rhs, st) {
                Err(er) => Err(er),
                Ok(rt) => if arith_pair(lt, rt) {
                    Ok(lt)
                } else {
                    Err(ErrV::InvalidBinaryOperands(BinOp::Additive))
                },
            },
        },
    }
}

/// Multiplicative layer; modulo is `int`-only.
pub open spec fn sem_multiplicative_expr(e: MultiplicativeExpr, st: Seq<ScopeV>) -> Result<
    TypeV,
    ErrV,
>
    decreases e,
{
    match e {
        MultiplicativeExpr::CastExpr(inner) => sem_cast_expr(inner, st),
        MultiplicativeExpr::Mul(lhs, rhs) | MultiplicativeExpr::Div(lhs, rhs) => match
            sem_multiplicative_expr(*lhs, st) {
            Err(er) => Err(er),
            Ok(lt) => match sem_cast_expr(rhs, st) {
                Err(er) => Err(er),
                Ok(rt) => if arith_pair(lt, rt) {
                    Ok(lt)
                } else {
                    Err(ErrV::InvalidBinaryOperands(BinOp::Multiplicative))
                },
            },
        },
        MultiplicativeExpr::Mod(lhs, rhs) => match sem_multiplicative_expr(*lhs, st) {
            Err(er) => Err(er),
            Ok(lt) => match sem_cast_expr(rhs, st) {
                Err(er) => Err(er),
                Ok(rt) => if lt is Int && rt is Int {
                    Ok(TypeV::Int)
                } else {
                    Err(ErrV::InvalidBinaryOperands(BinOp::Multiplicative))
                },
            },
        },
    }
}

/// Whether one type may be cast to another: an explicit allow-list,
/// nothing more.
pub open spec fn cast_allowed(target: TypeV, source: TypeV) -> bool {
    ||| (target is Int && source is Char)
    ||| (target is Int && source is Float)
    ||| (target is Int && source is Double)
    ||| (target is Char && source is Int)
    ||| (target is Float && source is Int)
    ||| (target is Double && source is Int)
    ||| (target is Pointer && source is Pointer)
}

/// Cast layer.
pub open spec fn sem_cast_expr(e: CastExpr, st: Seq<ScopeV>) -> Result<TypeV, ErrV>
    decreases e,
{
    match e {
        CastExpr::UnaryExpr(inner) => sem_unary_expr(inner, st),
        CastExpr::Cast(tn, sub) => match sem_type_name(tn, st) {
            Err(er) => Err(er),
            Ok(target) => match sem_cast_expr(*sub, st) {
                Err(er) => Err(er),
                Ok(source) => if cast_allowed(target, source) {
                    Ok(target)
                } else {
                    Err(ErrV::InvalidTypeCast { from: source, to: target })
                },
            },
        },
    }
}

/// Whether a type may be incremented or decremented.
pub open spec fn incr_operand(t: TypeV) -> bool {
    t is Int || t is Char || t is Float || t is Double || t is Pointer
}

/// Unary layer.
pub open spec fn sem_unary_expr(e: UnaryExpr, st: Seq<ScopeV>) -> Result<TypeV, ErrV>
    decreases e,
{
    match e {
        UnaryExpr::PostfixExpr(inner) => sem_postfix_expr(inner, st),
        UnaryExpr::PreIncr(inner) | UnaryExpr::PreDecr(inner) => match sem_unary_expr(
            *inner,
            st,
        ) {
            Err(er) => Err(er),
            Ok(t) => if incr_operand(t) {
                Ok(t)
            } else {
                Err(ErrV::InvalidUnaryOperand(e))
            },
        },
        UnaryExpr::Ref(inner) => match sem_cast_expr(*inner, st) {
            Err(er) => Err(er),
            Ok(t) => Ok(TypeV::Pointer(Box::new(t))),
        },
        UnaryExpr::Deref(inner) => match sem_cast_expr(*inner, st) {
            Err(er) => Err(er),
            Ok(t) => match t {
                TypeV::Pointer(inner_t) => Ok(*inner_t),
                _ => Err(ErrV::InvalidDereferenceOperand(e)),
            },
        },
        UnaryExpr::UnaryAdd(inner) | UnaryExpr::UnarySub(inner) => match sem_cast_expr(
            *inner,
            st,
        ) {
            Err(er) => Err(er),
            Ok(t) => if t is Int || t is Char || t is Float || t is Double {
                Ok(t)
            } else {
                Err(ErrV::InvalidUnaryOperand(e))
            },
        },
        UnaryExpr::OnesComplement(inner) => match sem_cast_expr(*inner, st) {
            Err(er) => Err(er),
            Ok(t) => if t is Int || t is Char {
                Ok(t)
            } else {
                Err(ErrV::InvalidUnaryOperand(e))
            },
        },
        UnaryExpr::Not(inner) => match sem_cast_expr(*inner, st) {
            Err(er) => Err(er),
            Ok(t) => if t is Int {
                Ok(t)
            } else {
                Err(ErrV::InvalidUnaryOperand(e))
            },
        },
        UnaryExpr::SizeofExpr(inner) => match sem_unary_expr(*inner, st) {
            Err(er) => Err(er),
            Ok(t) => Ok(TypeV::Int),
        },
        UnaryExpr::SizeofTypeName(tn) => match sem_type_name(tn, st) {
            Err(er) => Err(er),
            Ok(t) => Ok(TypeV::Int),
        },
    }
}

/// The first member of this name, searched in declaration order.
pub open spec fn find_member(members: Seq<(Seq<char>, TypeV)>, field: Seq<char>) -> Option<TypeV>
    decreases members,
{
    if members.len() == 0 {
        None
    } else if members.first().0 == field {
        Some(members.first().1)
    } else {
        find_member(members.drop_first(), field)
    }
}

/// The result of calling a function type with these arguments: arity
/// must match exactly, and each argument's type must equal the
/// corresponding parameter type exactly.
pub open spec fn sem_args(
    args: Seq<AssignmentExpr>,
    params: Seq<TypeV>,
    ret: TypeV,
    st: Seq<ScopeV>,
    call: PostfixExpr,
) -> Result<TypeV, ErrV>
    decreases args,
{
    if args.len() != params.len() {
        Err(ErrV::InvalidFnCall(call))
    } else if args.len() == 0 {
        Ok(ret)
    } else {
        proof {
            assert(decreases_to!(args => args[0]));
        }
        match sem_assignment_expr(args.first(), st) {
            Err(er) => Err(er),
            Ok(at) => if at != params.first() {
                Err(ErrV::InvalidFnCall(call))
            } else {
                sem_args(args.drop_first(), params.drop_first(), ret, st, call)
            },
        }
    }
}

/// Postfix layer.
pub open spec fn sem_postfix_expr(e: PostfixExpr, st: Seq<ScopeV>) -> Result<TypeV, ErrV>
    decreases e,
{
    match e {
        PostfixExpr::Primary(inner) => sem_primary_expr(inner, st),
        PostfixExpr::ArrayAccess(inner, index) => match sem_postfix_expr(*inner, st) {
            Err(er) => Err(er),
            Ok(bt) => match sem_assignment_expr(*index, st) {
                Err(er) => Err(er),
                Ok(it) => match (bt, it) {
                    (TypeV::Pointer(t), TypeV::Int) => Ok(*t),
                    (TypeV::Array(t, n), TypeV::Int) => Ok(*t),
                    _ => Err(ErrV::InvalidPostfixOperand(e)),
                },
            },
        },
        PostfixExpr::FunctionCall(inner, args) => {
            proof {
                assert(decreases_to!(e => args));
                assert(decreases_to!(args => args@));
            }
            match sem_postfix_expr(*inner, st) {
                Err(er) => Err(er),
                Ok(bt) => match bt {
                    TypeV::Function { return_ty, param_tys } => sem_args(
                        args@,
                        param_tys,
                        *return_ty,
                        st,
                        e,
                    ),
                    TypeV::Pointer(pt) => {
                        let pointee = *pt;
                        match pointee {
                            TypeV::Function { return_ty, param_tys } => sem_args(
                                args@,
                                param_tys,
                                *return_ty,
                                st,
                                e,
                            ),
                            _ => Err(ErrV::NotAFunction(*inner)),
                        }
                    },
                    _ => Err(ErrV::NotAFunction(*inner)),
                },
            }
        },
        PostfixExpr::MemberAccess(inner, field) => match sem_postfix_expr(*inner, st) {
            Err(er) => Err(er),
            Ok(bt) => match bt {
                TypeV::Struct { name, members } => match find_member(members, field@) {
                    Some(t) => Ok(t),
                    None => Err(ErrV::UndefinedMember { struct_name: name, field: field@ }),
                },
                _ => Err(ErrV::NotAStruct(*inner)),
            },
        },
        PostfixExpr::PointerMemberAccess(inner, field) => match sem_postfix_expr(*inner, st) {
            Err(er) => Err(er),
            Ok(bt) => match bt {
                TypeV::Pointer(pt) => {
                    let pointee = *pt;
                    match pointee {
                        TypeV::Struct { name, members } => match find_member(members, field@) {
                            Some(t) => Ok(t),
                            None => Err(ErrV::UndefinedMember {
                                struct_name: name,
                                field: field@,
                            }),
                        },
                        _ => Err(ErrV::NotAStruct(*inner)),
                    }
                },
                _ => Err(ErrV::NotAPointerToStruct(*inner)),
            },
        },
        PostfixExpr::PostIncr(inner) | PostfixExpr::PostDecr(inner) => match sem_postfix_expr(
            *inner,
            st,
        ) {
            Err(er) => Err(er),
            Ok(t) => if incr_operand(t) {
                Ok(t)
            } else {
                Err(ErrV::InvalidPostfixOperand(e))
            },
        },
    }
}

/// Primary layer: identifiers resolve innermost-first, enumeration
/// constants outermost-first; literals map to their kinds.
pub open spec fn sem_primary_expr(e: Primary, st: Seq<ScopeV>) -> Result<TypeV, ErrV>
    decreases e,
{
    match e {
        Primary::Ident(n) => match stack_find_var(st, n@) {
            Some(t) => Ok(t),
            None => Err(ErrV::UndefinedVariable(n@)),
        },
        Primary::Int(_) => Ok(TypeV::Int),
        Primary::Char(_) => Ok(TypeV::Char),
        Primary::Float(_) => Ok(TypeV::Float),
        Primary::EnumConstant(n) => match stack_find_enum(st, n@) {
            Some(t) => Ok(t),
            None => Err(ErrV::UndefinedVariable(n@)),
        },
        Primary::StringLiteral(_) => Ok(TypeV::StringLit),
        Primary::Parens(inner) => sem_assignment_expr(*inner, st),
    }
}


/// Types an assignment expression.
pub fn analyze_assignment_expr<'a>(e: &'a AssignmentExpr, ctx: &SemanticContext) -> (r: Result<
    Type,
    SemanticError<'a>,
>)
    ensures
        res_ty_view(r) == sem_assignment_expr(*e, ctx@),
    decreases *e,
{
    match e {
        AssignmentExpr::ConditionalExpr(inner) => analyze_conditional_expr(inner, ctx),
        AssignmentExpr::Assign(lhs, rhs)
        | AssignmentExpr::MulAssign(lhs, rhs)
        | AssignmentExpr::DivAssign(lhs, rhs)
        | AssignmentExpr::ModAssign(lhs, rhs)
        | AssignmentExpr::AddAssign(lhs, rhs)
        | AssignmentExpr::SubAssign(lhs, rhs)
        | AssignmentExpr::ShiftLeftAssign(lhs, rhs)
        | AssignmentExpr::ShiftRightAssign(lhs, rhs)
        | AssignmentExpr::BitAndAssign(lhs, rhs)
        | AssignmentExpr::XORAssign(lhs, rhs)
        | AssignmentExpr::BitOrAssign(lhs, rhs) => {
            let lt = match analyze_unary_expr(lhs, ctx) {
                Ok(t) => t,
                Err(er) => {
                    return Err(er);
                },
            };
            let rt = match analyze_assignment_expr(rhs, ctx) {
                Ok(t) => t,
                Err(er) => {
                    return Err(er);
                },
            };
            if type_eq(&lt, &rt) {
                Ok(lt)
            } else {
                Err(SemanticError::TypeMismatch(lt, rt))
            }
        },
    }
}

/// Types a conditional expression.
pub fn analyze_conditional_expr<'a>(e: &'a ConditionalExpr, ctx: &SemanticContext) -> (r: Result<
    Type,
    SemanticError<'a>,
>)
    ensures
        res_ty_view(r) == sem_conditional_expr(*e, ctx@),
    decreases *e,
{
    match e {
        ConditionalExpr::LogicalOrExpr(inner) => analyze_logicalor_expr(inner, ctx),
        ConditionalExpr::Ternary { test, pass, fail } => {
            let tt = match analyze_logicalor_expr(test, ctx) {
                Ok(t) => t,
                Err(er) => {
                    return Err(er);
                },
            };
            match tt {
                Type::Int => {},
                _ => {
                    return Err(SemanticError::UnexpectedType {
                        expected: Type::Int,
                        actual: tt,
                    });
                },
            }
            let pt = match analyze_assignment_expr(pass, ctx) {
                Ok(t) => t,
                Err(er) => {
                    return Err(er);
                },
            };
            let ft = match analyze_conditional_expr(fail, ctx) {
                Ok(t) => t,
                Err(er) => {
                    return Err(er);
                },
            };
            if type_eq(&pt, &ft) {
                Ok(pt)
            } else {
                Err(SemanticError::TypeMismatch(pt, ft))
            }
        },
    }
}

/// Types a logical-or expression.
pub fn analyze_logicalor_expr<'a>(e: &'a LogicalOrExpr, ctx: &SemanticContext) -> (r: Result<
    Type,
    SemanticError<'a>,
>)
    ensures
        res_ty_view(r) == sem_logicalor_expr(*e, ctx@),
    decreases *e,
{
    match e {
        LogicalOrExpr::LogicalAndExpr(inner) => analyze_logicaland_expr(inner, ctx),
        LogicalOrExpr::LogicalOr(lhs, rhs) => {
            let lt = match analyze_logicalor_expr(lhs, ctx) {
                Ok(t) => t,
                Err(er) => {
                    return Err(er);
                },
            };
            let rt = match analyze_logicaland_expr(rhs, ctx) {
                Ok(t) => t,
                Err(er) => {
                    return Err(er);
                },
            };
            match (&lt, &rt) {
                (Type::Int, Type::Int) | (Type::Char, Type::Char) => Ok(Type::Int),
                _ => Err(SemanticError::InvalidBinaryOperands(BinOp::LogicalOr)),
            }
        },
    }
}

/// Types a logical-and expression.
pub fn analyze_logicaland_expr<'a>(e: &'a LogicalAndExpr, ctx: &SemanticContext) -> (r: Result<
    Type,
    SemanticError<'a>,
>)
    ensures
        res_ty_view(r) == sem_logicaland_expr(*e, ctx@),
    decreases *e,
{
    match e {
        LogicalAndExpr::BitOrExpr(inner) => analyze_bitor_expr(inner, ctx),
        LogicalAndExpr::LogicalAnd(lhs, rhs) => {
            let lt = match analyze_logicaland_expr(lhs, ctx) {
                Ok(t) => t,
                Err(er) => {
                    return Err(er);
                },
            };
            let rt = match analyze_bitor_expr(rhs, ctx) {
                Ok(t) => t,
                Err(er) => {
                    return Err(er);
                },
            };
            match (&lt, &rt) {
                (Type::Int, Type::Int) | (Type::Char, Type::Char) => Ok(Type::Int),
                _ => Err(SemanticError::InvalidBinaryOperands(BinOp::LogicalAnd)),
            }
        },
    }
}

/// Types a bitwise-or expression.
pub fn analyze_bitor_expr<'a>(e: &'a BitOrExpr, ctx: &SemanticContext) -> (r: Result<
    Type,
    SemanticError<'a>,
>)
    ensures
        res_ty_view(r) == sem_bitor_expr(*e, ctx@),
    decreases *e,
{
    match e {
        BitOrExpr::XORExpr(inner) => analyze_xor_expr(inner, ctx),
        BitOrExpr::BitOr(lhs, rhs) => {
            let lt = match analyze_bitor_expr(lhs, ctx) {
                Ok(t) => t,
                Err(er) => {
                    return Err(er);
                },
            };
            let rt = match analyze_xor_expr(rhs, ctx) {
                Ok(t) => t,
                Err(er) => {
                    return Err(er);
                },
            };
            match (&lt, &rt) {
                (Type::Int, Type::Int) | (Type::Char, Type::Char) => Ok(Type::Int),
                _ => Err(SemanticError::InvalidBinaryOperands(BinOp::BitOr)),
            }
        },
    }
}

/// Types an exclusive-or expression.
pub fn analyze_xor_expr<'a>(e: &'a XORExpr, ctx: &SemanticContext) -> (r: Result<Type, SemanticError<'a>>)
    ensures
        res_ty_view(r) == sem_xor_expr(*e, ctx@),
    decreases *e,
{
    match e {
        XORExpr::BitAndExpr(inner) => analyze_bitand_expr(inner, ctx),
        XORExpr::XOR(lhs, rhs) => {
            let lt = match analyze_xor_expr(lhs, ctx) {
                Ok(t) => t,
                Err(er) => {
                    return Err(er);
                },
            };
            let rt = match analyze_bitand_expr(rhs, ctx) {
                Ok(t) => t,
                Err(er) => {
                    return Err(er);
                },
            };
            match (&lt, &rt) {
                (Type::Int, Type::Int) | (Type::Char, Type::Char) => Ok(Type::Int),
                _ => Err(SemanticError::InvalidBinaryOperands(BinOp::XOR)),
            }
        },
    }
}

/// Types a bitwise-and expression.
pub fn analyze_bitand_expr<'a>(e: &'a BitAndExpr, ctx: &SemanticContext) -> (r: Result<
    Type,
    SemanticError<'a>,
>)
    ensures
        res_ty_view(r) == sem_bitand_expr(*e, ctx@),
    decreases *e,
{
    match e {
        BitAndExpr::EqualityExpr(inner) => analyze_equality_expr(inner, ctx),
        BitAndExpr::BitAnd(lhs, rhs) => {
            let lt = match analyze_bitand_expr(lhs, ctx) {
                Ok(t) => t,
                Err(er) => {
                    return Err(er);
                },
            };
            let rt = match analyze_equality_expr(rhs, ctx) {
                Ok(t) => t,
                Err(er) => {
                    return Err(er);
                },
            };
            match (&lt, &rt) {
                (Type::Int, Type::Int) | (Type::Char, Type::Char) => Ok(Type::Int),
                _ => Err(SemanticError::InvalidBinaryOperands(BinOp::BitAnd)),
            }
        },
    }
}

/// Types an equality expression.
pub fn analyze_equality_expr<'a>(e: &'a EqualityExpr, ctx: &SemanticContext) -> (r: Result<
    Type,
    SemanticError<'a>,
>)
    ensures
        res_ty_view(r) == sem_equality_expr(*e, ctx@),
    decreases *e,
{
    match e {
        EqualityExpr::ComparisionExpr(inner) => analyze_comparision_expr(inner, ctx),
        EqualityExpr::EQ(lhs, rhs) | EqualityExpr::NE(lhs, rhs) => {
            let lt = match analyze_equality_expr(lhs, ctx) {
                Ok(t) => t,
                Err(er) => {
                    return Err(er);
                },
            };
            let rt = match analyze_comparision_expr(rhs, ctx) {
                Ok(t) => t,
                Err(er) => {
                    return Err(er);
                },
            };
            match (&lt, &rt) {
                (Type::Int, Type::Int)
                | (Type::Char, Type::Char)
                | (Type::Float, Type::Float)
                | (Type::Double, Type::Double) => Ok(Type::Int),
                _ => Err(SemanticError::InvalidBinaryOperands(BinOp::Equality)),
            }
        },
    }
}

/// Types a relational expression.
pub fn analyze_comparision_expr<'a>(e: &'a ComparisionExpr, ctx: &SemanticContext) -> (r: Result<
    Type,
    SemanticError<'a>,
>)
    ensures
        res_ty_view(r) == sem_comparision_expr(*e, ctx@),
    decreases *e,
{
    match e {
        ComparisionExpr::ShiftExpr(inner) => analyze_shift_expr(inner, ctx),
        ComparisionExpr::LT(lhs, rhs)
        | ComparisionExpr::GT(lhs, rhs)
        | ComparisionExpr::LE(lhs, rhs)
        | ComparisionExpr::GE(lhs, rhs) => {
            let lt = match analyze_comparision_expr(lhs, ctx) {
                Ok(t) => t,
                Err(er) => {
                    return Err(er);
                },
            };
            let rt = match analyze_shift_expr(rhs, ctx) {
                Ok(t) => t,
                Err(er) => {
                    return Err(er);
                },
            };
            match (&lt, &rt) {
                (Type::Int, Type::Int)
                | (Type::Char, Type::Char)
                | (Type::Float, Type::Float)
                | (Type::Double, Type::Double) => Ok(lt),
                _ => Err(SemanticError::InvalidBinaryOperands(BinOp::Comparision)),
            }
        },
    }
}

/// Types a shift expression.
pub fn analyze_shift_expr<'a>(e: &'a ShiftExpr, ctx: &SemanticContext) -> (r: Result<
    Type,
    SemanticError<'a>,
>)
    ensures
        res_ty_view(r) == sem_shift_expr(*e, ctx@),
    decreases *e,
{
    match e {
        ShiftExpr::AdditiveExpr(inner) => analyze_additive_expr(inner, ctx),
        ShiftExpr::ShiftLeft(lhs, rhs) | ShiftExpr::ShiftRight(lhs, rhs) => {
            let lt = match analyze_shift_expr(lhs, ctx) {
                Ok(t) => t,
                Err(er) => {
                    return Err(er);
                },
            };
            let rt = match analyze_additive_expr(rhs, ctx) {
                Ok(t) => t,
                Err(er) => {
                    return Err(er);
                },
            };
            match (&lt, &rt) {
                (Type::Int, Type::Int) => Ok(Type::Int),
                _ => Err(SemanticError::InvalidBinaryOperands(BinOp::Shift)),
            }
        },
    }
}

/// Types an additive expression.
pub fn analyze_additive_expr<'a>(e: &'a AdditiveExpr, ctx: &SemanticContext) -> (r: Result<
    Type,
    SemanticError<'a>,
>)
    ensures
        res_ty_view(r) == sem_additive_expr(*e, ctx@),
    decreases *e,
{
    match e {
        AdditiveExpr::MultiplicativeExpr(inner) => analyze_multiplicative_expr(inner, ctx),
        AdditiveExpr::Add(lhs, rhs) | AdditiveExpr::Sub(lhs, rhs) => {
            let lt = match analyze_additive_expr(lhs, ctx) {
                Ok(t) => t,
                Err(er) => {
                    return Err(er);
                },
            };
            let rt = match analyze_multiplicative_expr(rhs, ctx) {
                Ok(t) => t,
                Err(er) => {
                    return Err(er);
                },
            };
            match (&lt, &rt) {
                (Type::Int, Type::Int)
                | (Type::Float, Type::Float)
                | (Type::Double, Type::Double) => Ok(lt),
                _ => Err(SemanticError::InvalidBinaryOperands(BinOp::Additive)),
            }
        },
    }
}

/// Types a multiplicative expression.
pub fn analyze_multiplicative_expr<'a>(e: &'a MultiplicativeExpr, ctx: &SemanticContext) -> (r: Result<
    Type,
    SemanticError<'a>,
>)
    ensures
        res_ty_view(r) == sem_multiplicative_expr(*e, ctx@),
    decreases *e,
{
    match e {
        MultiplicativeExpr::CastExpr(inner) => analyze_cast_expr(inner, ctx),
        MultiplicativeExpr::Mul(lhs, rhs) | MultiplicativeExpr::Div(lhs, rhs) => {
            let lt = match analyze_multiplicative_expr(lhs, ctx) {
                Ok(t) => t,
                Err(er) => {
                    return Err(er);
                },
            };
            let rt = match analyze_cast_expr(rhs, ctx) {
                Ok(t) => t,
                Err(er) => {
                    return Err(er);
                },
            };
            match (&lt, &rt) {
                (Type::Int, Type::Int)
                | (Type::Float, Type::Float)
                | (Type::Double, Type::Double) => Ok(lt),
                _ => Err(SemanticError::InvalidBinaryOperands(BinOp::Multiplicative)),
            }
        },
        MultiplicativeExpr::Mod(lhs, rhs) => {
            let lt = match analyze_multiplicative_expr(lhs, ctx) {
                Ok(t) => t,
                Err(er) => {
                    return Err(er);
                },
            };
            let rt = match analyze_cast_expr(rhs, ctx) {
                Ok(t) => t,
                Err(er) => {
                    return Err(er);
                },
            };
            match (&lt, &rt) {
                (Type::Int, Type::Int) => Ok(Type::Int),
                _ => Err(SemanticError::InvalidBinaryOperands(BinOp::Multiplicative)),
            }
        },
    }
}

/// Types a cast expression against the explicit cast allow-list.
pub fn analyze_cast_expr<'a>(e: &'a CastExpr, ctx: &SemanticContext) -> (r: Result<Type, SemanticError<'a>>)
    ensures
        res_ty_view(r) == sem_cast_expr(*e, ctx@),
    decreases *e,
{
    match e {
        CastExpr::UnaryExpr(inner) => analyze_unary_expr(inner, ctx),
        CastExpr::Cast(tn, sub) => {
            let target = match crate::specifiers::analyze_type_name(tn, ctx) {
                Ok(t) => t,
                Err(er) => {
                    return Err(er);
                },
            };
            let source = match analyze_cast_expr(sub, ctx) {
                Ok(t) => t,
                Err(er) => {
                    return Err(er);
                },
            };
            match (&target, &source) {
                (Type::Int, Type::Char)
                | (Type::Int, Type::Float)
                | (Type::Int, Type::Double)
                | (Type::Char, Type::Int)
                | (Type::Float, Type::Int)
                | (Type::Double, Type::Int) => Ok(target),
                (Type::Pointer(_), Type::Pointer(_)) => Ok(target),
                _ => Err(SemanticError::InvalidTypeCast { from: source, to: target }),
            }
        },
    }
}

/// Types a unary expression.
pub fn analyze_unary_expr<'a>(e: &'a UnaryExpr, ctx: &SemanticContext) -> (r: Result<
    Type,
    SemanticError<'a>,
>)
    ensures
        res_ty_view(r) == sem_unary_expr(*e, ctx@),
    decreases *e,
{
    match e {
        UnaryExpr::PostfixExpr(inner) => analyze_postfix_expr(inner, ctx),
        UnaryExpr::PreIncr(inner) | UnaryExpr::PreDecr(inner) => {
            let t = match analyze_unary_expr(inner, ctx) {
                Ok(t) => t,
                Err(er) => {
                    return Err(er);
                },
            };
            match &t {
                Type::Int | Type::Char | Type::Float | Type::Double | Type::Pointer(_) => Ok(t),
                _ => Err(SemanticError::InvalidUnaryOperand(e)),
            }
        },
        UnaryExpr::Ref(inner) => {
            let t = match analyze_cast_expr(inner, ctx) {
                Ok(t) => t,
                Err(er) => {
                    return Err(er);
                },
            };
            Ok(Type::Pointer(Box::new(t)))
        },
        UnaryExpr::Deref(inner) => {
            let t = match analyze_cast_expr(inner, ctx) {
                Ok(t) => t,
                Err(er) => {
                    return Err(er);
                },
            };
            match t {
                Type::Pointer(inner_t) => Ok(*inner_t),
                _ => Err(SemanticError::InvalidDereferenceOperand(e)),
            }
        },
        UnaryExpr::UnaryAdd(inner) | UnaryExpr::UnarySub(inner) => {
            let t = match analyze_cast_expr(inner, ctx) {
                Ok(t) => t,
                Err(er) => {
                    return Err(er);
                },
            };
            match &t {
                Type::Int | Type::Char | Type::Float | Type::Double => Ok(t),
                _ => Err(SemanticError::InvalidUnaryOperand(e)),
            }
        },
        UnaryExpr::OnesComplement(inner) => {
            let t = match analyze_cast_expr(inner, ctx) {
                Ok(t) => t,
                Err(er) => {
                    return Err(er);
                },
            };
            match &t {
                Type::Int | Type::Char => Ok(t),
                _ => Err(SemanticError::InvalidUnaryOperand(e)),
            }
        },
        UnaryExpr::Not(inner) => {
            let t = match analyze_cast_expr(inner, ctx) {
                Ok(t) => t,
                Err(er) => {
                    return Err(er);
                },
            };
            match &t {
                Type::Int => Ok(t),
                _ => Err(SemanticError::InvalidUnaryOperand(e)),
            }
        },
        UnaryExpr::SizeofExpr(inner) => {
            match analyze_unary_expr(inner, ctx) {
                Ok(_) => Ok(Type::Int),
                Err(er) => Err(er),
            }
        },
        UnaryExpr::SizeofTypeName(tn) => {
            match crate::specifiers::analyze_type_name(tn, ctx) {
                Ok(_) => Ok(Type::Int),
                Err(er) => Err(er),
            }
        },
    }
}

/// Checks a call's arguments against the parameter types and yields the
/// declared return type.
pub fn analyze_call_args<'a>(
    args: &'a Vec<AssignmentExpr>,
    params: &Vec<Type>,
    ret: Type,
    ctx: &SemanticContext,
    call: &'a PostfixExpr,
) -> (r: Result<Type, SemanticError<'a>>)
    ensures
        res_ty_view(r) == sem_args(args@, seq_type_view(params@), ret@, ctx@, *call),
    decreases args@,
{
    proof {
        lemma_seq_type_view(params@);
    }
    if args.len() != params.len() {
        return Err(SemanticError::InvalidFnCall(call));
    }
    let ghost pv = seq_type_view(params@);
    let ghost retv = ret@;
    let mut i: usize = 0;
    proof {
        assert(args@.skip(0) =~= args@);
        assert(pv.skip(0) =~= pv);
    }
    while i < args.len()
        invariant
            i <= args@.len(),
            args@.len() == pv.len(),
            pv == seq_type_view(params@),
            retv == ret@,
            sem_args(args@, pv, retv, ctx@, *call) == sem_args(
                args@.skip(i as int),
                pv.skip(i as int),
                retv,
                ctx@,
                *call,
            ),
        decreases args@.len() - i,
    {
        proof {
            lemma_seq_type_view(params@);
            assert(args@.skip(i as int).first() == args@[i as int]);
            assert(args@.skip(i as int).drop_first() =~= args@.skip(i as int + 1));
            assert(pv.skip(i as int).first() == pv[i as int]);
            assert(pv.skip(i as int).drop_first() =~= pv.skip(i as int + 1));
            assert(decreases_to!(args@ => args@[i as int]));
        }
        let at = match analyze_assignment_expr(&args[i], ctx) {
            Ok(t) => t,
            Err(er) => {
                return Err(er);
            },
        };
        if !type_eq(&at, &params[i]) {
            return Err(SemanticError::InvalidFnCall(call));
        }
        i += 1;
    }
    proof {
        assert(args@.skip(args@.len() as int) =~= Seq::<AssignmentExpr>::empty());
        assert(pv.skip(pv.len() as int) =~= Seq::<TypeV>::empty());
    }
    Ok(ret)
}

/// Types a postfix expression.
#[verifier::rlimit(60)]
pub fn analyze_postfix_expr<'a>(e: &'a PostfixExpr, ctx: &SemanticContext) -> (r: Result<
    Type,
    SemanticError<'a>,
>)
    ensures
        res_ty_view(r) == sem_postfix_expr(*e, ctx@),
    decreases *e,
{
    match e {
        PostfixExpr::Primary(inner) => analyze_primary_expr(inner, ctx),
        PostfixExpr::ArrayAccess(inner, index) => {
            let bt = match analyze_postfix_expr(inner, ctx) {
                Ok(t) => t,
                Err(er) => {
                    return Err(er);
                },
            };
            let it = match analyze_assignment_expr(index, ctx) {
                Ok(t) => t,
                Err(er) => {
                    return Err(er);
                },
            };
            match (bt, it) {
                (Type::Pointer(t), Type::Int) => Ok(*t),
                (Type::Array(t, _), Type::Int) => Ok(*t),
                _ => Err(SemanticError::InvalidPostfixOperand(e)),
            }
        },
        PostfixExpr::FunctionCall(inner, args) => {
            proof {
                assert(decreases_to!(*e => *args));
            }
            let bt = match analyze_postfix_expr(inner, ctx) {
                Ok(t) => t,
                Err(er) => {
                    return Err(er);
                },
            };
            let ghost btv = bt@;
            match bt {
                Type::Function { return_ty, param_tys } => analyze_call_args(
                    args,
                    &param_tys,
                    *return_ty,
                    ctx,
                    e,
                ),
                Type::Pointer(pt) => {
                    proof {
                        assert(*btv->Pointer_0 == crate::types::type_view(*pt));
                    }
                    let pointee = *pt;
                    match pointee {
                        Type::Function { return_ty, param_tys } => analyze_call_args(
                            args,
                            &param_tys,
                            *return_ty,
                            ctx,
                            e,
                        ),
                        _ => Err(SemanticError::NotAFunction(inner)),
                    }
                },
                _ => Err(SemanticError::NotAFunction(inner)),
            }
        },
        PostfixExpr::MemberAccess(inner, field) => {
            let bt = match analyze_postfix_expr(inner, ctx) {
                Ok(t) => t,
                Err(er) => {
                    return Err(er);
                },
            };
            match bt {
                Type::Struct { name, members } => lookup_member(name, &members, field),
                _ => Err(SemanticError::NotAStruct(inner)),
            }
        },
        PostfixExpr::PointerMemberAccess(inner, field) => {
            let bt = match analyze_postfix_expr(inner, ctx) {
                Ok(t) => t,
                Err(er) => {
                    return Err(er);
                },
            };
            let ghost btv = bt@;
            match bt {
                Type::Pointer(pt) => {
                    proof {
                        assert(*btv->Pointer_0 == crate::types::type_view(*pt));
                    }
                    let pointee = *pt;
                    match pointee {
                        Type::Struct { name, members } => lookup_member(name, &members, field),
                        _ => Err(SemanticError::NotAStruct(inner)),
                    }
                },
                _ => Err(SemanticError::NotAPointerToStruct(inner)),
            }
        },
        PostfixExpr::PostIncr(inner) | PostfixExpr::PostDecr(inner) => {
            let t = match analyze_postfix_expr(inner, ctx) {
                Ok(t) => t,
                Err(er) => {
                    return Err(er);
                },
            };
            match &t {
                Type::Int | Type::Char | Type::Float | Type::Double | Type::Pointer(_) => Ok(t),
                _ => Err(SemanticError::InvalidPostfixOperand(e)),
            }
        },
    }
}

/// Looks a field up among a struct's members, in declaration order.
fn lookup_member<'a>(name: String, members: &Vec<(String, Type)>, field: &String) -> (r: Result<
    Type,
    SemanticError<'a>,
>)
    ensures
        res_ty_view(r) == (match find_member(
            crate::types::seq_member_view(members@),
            field@,
        ) {
            Some(t) => Ok::<TypeV, ErrV>(t),
            None => Err(ErrV::UndefinedMember { struct_name: name@, field: field@ }),
        }),
{
    let ghost mv = crate::types::seq_member_view(members@);
    let mut j: usize = 0;
    proof {
        crate::types::lemma_seq_member_view(members@);
        assert(mv.skip(0) =~= mv);
    }
    while j < members.len()
        invariant
            j <= members@.len(),
            mv == crate::types::seq_member_view(members@),
            mv.len() == members@.len(),
            find_member(mv, field@) == find_member(mv.skip(j as int), field@),
        decreases members@.len() - j,
    {
        proof {
            crate::types::lemma_seq_member_view(members@);
            assert(mv.skip(j as int).first() == mv[j as int]);
            assert(mv.skip(j as int).drop_first() =~= mv.skip(j as int + 1));
        }
        if members[j].0 == *field {
            return Ok(clone_type(&members[j].1));
        }
        j += 1;
    }
    proof {
        assert(mv.skip(mv.len() as int) =~= Seq::<(Seq<char>, TypeV)>::empty());
    }
    Err(SemanticError::UndefinedMember { struct_name: name, field: field.clone() })
}

/// Types a primary expression.
pub fn analyze_primary_expr<'a>(e: &'a Primary, ctx: &SemanticContext) -> (r: Result<
    Type,
    SemanticError<'a>,
>)
    ensures
        res_ty_view(r) == sem_primary_expr(*e, ctx@),
    decreases *e,
{
    match e {
        Primary::Ident(n) => match ctx.find_var(n) {
            Some(t) => Ok(clone_type(t)),
            None => Err(SemanticError::UndefinedVariable(n.clone())),
        },
        Primary::Int(_) => Ok(Type::Int),
        Primary::Char(_) => Ok(Type::Char),
        Primary::Float(_) => Ok(Type::Float),
        Primary::EnumConstant(n) => match ctx.find_enum_invariant(n) {
            Some(t) => Ok(clone_type(t)),
            None => Err(SemanticError::UndefinedVariable(n.clone())),
        },
        Primary::StringLiteral(_) => Ok(Type::StringLit),
        Primary::Parens(inner) => analyze_assignment_expr(inner, ctx),
    }
}

} // verus!
